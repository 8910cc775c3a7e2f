//! The BC7 (BPTC) block decoder: a 16-byte block in, 16 RGBA texels out.
//!
//! A block's leading bits select one of eight layout modes by unary
//! coding. Mode 0 (3 subsets, 4-bit partition, 4-bit endpoints with
//! per-endpoint P-bits, 3-bit color indices) is decoded in full; an
//! all-zero mode header is the format's defined fallback and decodes to
//! all-zero texels; the remaining modes surface an explicit unsupported
//! signal instead of wrong pixels.

use crate::bits::{lemma_spec_bits_bound, lemma_spec_bits_one, spec_bit, spec_bits, BitReader};
use crate::{Block16, Rgba8};
use vstd::prelude::*;

verus! {

/// One of the eight BC7 block layouts, or the invalid all-zero header.
#[derive(Copy, Clone, Debug, PartialEq, Eq, Structural)]
pub enum Mode {
    /// An all-zero mode header.
    ///
    /// The decoder must return an all-zero block.
    Invalid,
    Mode0,
    Mode1,
    Mode2,
    Mode3,
    Mode4,
    Mode5,
    Mode6,
    Mode7,
}

/// A decoder limitation distinct from the invalid-header fallback: the
/// block is well-formed, but its mode is not implemented.
#[derive(Copy, Clone, Debug, PartialEq, Eq, Structural)]
pub enum Bc7Error {
    Unsupported(Mode),
}

/// The mode selected by the position of the first set bit of the block.
pub open spec fn spec_mode(b: Seq<u8>) -> Mode {
    if spec_bit(b, 0) == 1 {
        Mode::Mode0
    } else if spec_bit(b, 1) == 1 {
        Mode::Mode1
    } else if spec_bit(b, 2) == 1 {
        Mode::Mode2
    } else if spec_bit(b, 3) == 1 {
        Mode::Mode3
    } else if spec_bit(b, 4) == 1 {
        Mode::Mode4
    } else if spec_bit(b, 5) == 1 {
        Mode::Mode5
    } else if spec_bit(b, 6) == 1 {
        Mode::Mode6
    } else if spec_bit(b, 7) == 1 {
        Mode::Mode7
    } else {
        Mode::Invalid
    }
}

/// How many bits the unary mode header of `m` occupies.
pub open spec fn spec_mode_header_bits(m: Mode) -> int {
    match m {
        Mode::Invalid => 8,
        Mode::Mode0 => 1,
        Mode::Mode1 => 2,
        Mode::Mode2 => 3,
        Mode::Mode3 => 4,
        Mode::Mode4 => 5,
        Mode::Mode5 => 6,
        Mode::Mode6 => 7,
        Mode::Mode7 => 8,
    }
}

/// Subset count per mode: 0 stands in for the invalid header, which has
/// no subsets.
pub open spec fn spec_num_subsets(m: Mode) -> u8 {
    match m {
        Mode::Invalid => 0,
        Mode::Mode0 => 3,
        Mode::Mode1 => 2,
        Mode::Mode2 => 3,
        Mode::Mode3 => 2,
        Mode::Mode4 => 1,
        Mode::Mode5 => 1,
        Mode::Mode6 => 1,
        Mode::Mode7 => 2,
    }
}

// --- Static wire-format tables ---

/// Interpolation weights for 2-bit color indices.
pub const WEIGHTS_2: [u16; 4] = [0, 21, 43, 64];

/// Interpolation weights for 3-bit color indices.
pub const WEIGHTS_3: [u16; 8] = [0, 9, 18, 27, 37, 46, 55, 64];

/// Interpolation weights for 4-bit color indices.
pub const WEIGHTS_4: [u16; 16] = [0, 4, 9, 13, 17, 21, 26, 30, 34, 38, 43, 47, 51, 55, 60, 64];

/// Subset id per (partition, texel position) for 2-subset modes.
pub const PARTITION_SUBSET_2: [[u8; 16]; 64] = [
    [0, 0, 1, 1, 0, 0, 1, 1, 0, 0, 1, 1, 0, 0, 1, 1],
    [0, 0, 0, 1, 0, 0, 0, 1, 0, 0, 0, 1, 0, 0, 0, 1],
    [0, 1, 1, 1, 0, 1, 1, 1, 0, 1, 1, 1, 0, 1, 1, 1],
    [0, 0, 0, 1, 0, 0, 1, 1, 0, 0, 1, 1, 0, 1, 1, 1],
    [0, 0, 0, 0, 0, 0, 0, 1, 0, 0, 0, 1, 0, 0, 1, 1],
    [0, 0, 1, 1, 0, 1, 1, 1, 0, 1, 1, 1, 1, 1, 1, 1],
    [0, 0, 0, 1, 0, 0, 1, 1, 0, 1, 1, 1, 1, 1, 1, 1],
    [0, 0, 0, 0, 0, 0, 0, 1, 0, 0, 1, 1, 0, 1, 1, 1],
    [0, 0, 0, 0, 0, 0, 0, 0, 0, 0, 0, 1, 0, 0, 1, 1],
    [0, 0, 1, 1, 0, 1, 1, 1, 1, 1, 1, 1, 1, 1, 1, 1],
    [0, 0, 0, 0, 0, 0, 0, 1, 0, 1, 1, 1, 1, 1, 1, 1],
    [0, 0, 0, 0, 0, 0, 0, 0, 0, 0, 0, 1, 0, 1, 1, 1],
    [0, 0, 0, 1, 0, 1, 1, 1, 1, 1, 1, 1, 1, 1, 1, 1],
    [0, 0, 0, 0, 0, 0, 0, 0, 1, 1, 1, 1, 1, 1, 1, 1],
    [0, 0, 0, 0, 1, 1, 1, 1, 1, 1, 1, 1, 1, 1, 1, 1],
    [0, 0, 0, 0, 0, 0, 0, 0, 0, 0, 0, 0, 1, 1, 1, 1],
    [0, 0, 0, 0, 1, 0, 0, 0, 1, 1, 1, 0, 1, 1, 1, 1],
    [0, 1, 1, 1, 0, 0, 0, 1, 0, 0, 0, 0, 0, 0, 0, 0],
    [0, 0, 0, 0, 0, 0, 0, 0, 1, 0, 0, 0, 1, 1, 1, 0],
    [0, 1, 1, 1, 0, 0, 1, 1, 0, 0, 0, 1, 0, 0, 0, 0],
    [0, 0, 1, 1, 0, 0, 0, 1, 0, 0, 0, 0, 0, 0, 0, 0],
    [0, 0, 0, 0, 1, 0, 0, 0, 1, 1, 0, 0, 1, 1, 1, 0],
    [0, 0, 0, 0, 0, 0, 0, 0, 1, 0, 0, 0, 1, 1, 0, 0],
    [0, 1, 1, 1, 0, 0, 1, 1, 0, 0, 1, 1, 0, 0, 0, 1],
    [0, 0, 1, 1, 0, 0, 0, 1, 0, 0, 0, 1, 0, 0, 0, 0],
    [0, 0, 0, 0, 1, 0, 0, 0, 1, 0, 0, 0, 1, 1, 0, 0],
    [0, 1, 1, 0, 0, 1, 1, 0, 0, 1, 1, 0, 0, 1, 1, 0],
    [0, 0, 1, 1, 0, 1, 1, 0, 0, 1, 1, 0, 1, 1, 0, 0],
    [0, 0, 0, 1, 0, 1, 1, 1, 1, 1, 1, 0, 1, 0, 0, 0],
    [0, 0, 0, 0, 1, 1, 1, 1, 1, 1, 1, 1, 0, 0, 0, 0],
    [0, 1, 1, 1, 0, 0, 0, 1, 1, 0, 0, 0, 1, 1, 1, 0],
    [0, 0, 1, 1, 1, 0, 0, 1, 1, 0, 0, 1, 1, 1, 0, 0],
    [0, 1, 0, 1, 0, 1, 0, 1, 0, 1, 0, 1, 0, 1, 0, 1],
    [0, 0, 0, 0, 1, 1, 1, 1, 0, 0, 0, 0, 1, 1, 1, 1],
    [0, 1, 0, 1, 1, 0, 1, 0, 0, 1, 0, 1, 1, 0, 1, 0],
    [0, 0, 1, 1, 0, 0, 1, 1, 1, 1, 0, 0, 1, 1, 0, 0],
    [0, 0, 1, 1, 1, 1, 0, 0, 0, 0, 1, 1, 1, 1, 0, 0],
    [0, 1, 0, 1, 0, 1, 0, 1, 1, 0, 1, 0, 1, 0, 1, 0],
    [0, 1, 1, 0, 1, 0, 0, 1, 0, 1, 1, 0, 1, 0, 0, 1],
    [0, 1, 0, 1, 1, 0, 1, 0, 1, 0, 1, 0, 0, 1, 0, 1],
    [0, 1, 1, 1, 0, 0, 1, 1, 1, 1, 0, 0, 1, 1, 1, 0],
    [0, 0, 0, 1, 0, 0, 1, 1, 1, 1, 0, 0, 1, 0, 0, 0],
    [0, 0, 1, 1, 0, 0, 1, 0, 0, 1, 0, 0, 1, 1, 0, 0],
    [0, 0, 1, 1, 1, 0, 1, 1, 1, 1, 0, 1, 1, 1, 0, 0],
    [0, 1, 1, 0, 1, 0, 0, 1, 1, 0, 0, 1, 0, 1, 1, 0],
    [0, 0, 1, 1, 1, 1, 0, 0, 1, 1, 0, 0, 0, 0, 1, 1],
    [0, 1, 1, 0, 0, 1, 1, 0, 1, 0, 0, 1, 1, 0, 0, 1],
    [0, 0, 0, 0, 0, 1, 1, 0, 0, 1, 1, 0, 0, 0, 0, 0],
    [0, 1, 0, 0, 1, 1, 1, 0, 0, 1, 0, 0, 0, 0, 0, 0],
    [0, 0, 1, 0, 0, 1, 1, 1, 0, 0, 1, 0, 0, 0, 0, 0],
    [0, 0, 0, 0, 0, 0, 1, 0, 0, 1, 1, 1, 0, 0, 1, 0],
    [0, 0, 0, 0, 0, 1, 0, 0, 1, 1, 1, 0, 0, 1, 0, 0],
    [0, 1, 1, 0, 1, 1, 0, 0, 1, 0, 0, 1, 0, 0, 1, 1],
    [0, 0, 1, 1, 0, 1, 1, 0, 1, 1, 0, 0, 1, 0, 0, 1],
    [0, 1, 1, 0, 0, 0, 1, 1, 1, 0, 0, 1, 1, 1, 0, 0],
    [0, 0, 1, 1, 1, 0, 0, 1, 1, 1, 0, 0, 0, 1, 1, 0],
    [0, 1, 1, 0, 1, 1, 0, 0, 1, 1, 0, 0, 1, 0, 0, 1],
    [0, 1, 1, 0, 0, 0, 1, 1, 0, 0, 1, 1, 1, 0, 0, 1],
    [0, 1, 1, 1, 1, 1, 1, 0, 1, 0, 0, 0, 0, 0, 0, 1],
    [0, 0, 0, 1, 1, 0, 0, 0, 1, 1, 1, 0, 0, 1, 1, 1],
    [0, 0, 0, 0, 1, 1, 1, 1, 0, 0, 1, 1, 0, 0, 1, 1],
    [0, 0, 1, 1, 0, 0, 1, 1, 1, 1, 1, 1, 0, 0, 0, 0],
    [0, 0, 1, 0, 0, 0, 1, 0, 1, 1, 1, 0, 1, 1, 1, 0],
    [0, 1, 0, 0, 0, 1, 0, 0, 0, 1, 1, 1, 0, 1, 1, 1],
];

/// Subset id per (partition, texel position) for 3-subset modes.
pub const PARTITION_SUBSET_3: [[u8; 16]; 64] = [
    [0, 0, 1, 1, 0, 0, 1, 1, 0, 2, 2, 1, 2, 2, 2, 2],
    [0, 0, 0, 1, 0, 0, 1, 1, 2, 2, 1, 1, 2, 2, 2, 1],
    [0, 0, 0, 0, 2, 0, 0, 1, 2, 2, 1, 1, 2, 2, 1, 1],
    [0, 2, 2, 2, 0, 0, 2, 2, 0, 0, 1, 1, 0, 1, 1, 1],
    [0, 0, 0, 0, 0, 0, 0, 0, 1, 1, 2, 2, 1, 1, 2, 2],
    [0, 0, 1, 1, 0, 0, 1, 1, 0, 0, 2, 2, 0, 0, 2, 2],
    [0, 0, 2, 2, 0, 0, 2, 2, 1, 1, 1, 1, 1, 1, 1, 1],
    [0, 0, 1, 1, 0, 0, 1, 1, 2, 2, 1, 1, 2, 2, 1, 1],
    [0, 0, 0, 0, 0, 0, 0, 0, 1, 1, 1, 1, 2, 2, 2, 2],
    [0, 0, 0, 0, 1, 1, 1, 1, 1, 1, 1, 1, 2, 2, 2, 2],
    [0, 0, 0, 0, 1, 1, 1, 1, 2, 2, 2, 2, 2, 2, 2, 2],
    [0, 0, 1, 2, 0, 0, 1, 2, 0, 0, 1, 2, 0, 0, 1, 2],
    [0, 1, 1, 2, 0, 1, 1, 2, 0, 1, 1, 2, 0, 1, 1, 2],
    [0, 1, 2, 2, 0, 1, 2, 2, 0, 1, 2, 2, 0, 1, 2, 2],
    [0, 0, 1, 1, 0, 1, 1, 2, 1, 1, 2, 2, 1, 2, 2, 2],
    [0, 0, 1, 1, 2, 0, 0, 1, 2, 2, 0, 0, 2, 2, 2, 0],
    [0, 0, 0, 1, 0, 0, 1, 1, 0, 1, 1, 2, 1, 1, 2, 2],
    [0, 1, 1, 1, 0, 0, 1, 1, 2, 0, 0, 1, 2, 2, 0, 0],
    [0, 0, 0, 0, 1, 1, 2, 2, 1, 1, 2, 2, 1, 1, 2, 2],
    [0, 0, 2, 2, 0, 0, 2, 2, 0, 0, 2, 2, 1, 1, 1, 1],
    [0, 1, 1, 1, 0, 1, 1, 1, 0, 2, 2, 2, 0, 2, 2, 2],
    [0, 0, 0, 1, 0, 0, 0, 1, 2, 2, 2, 1, 2, 2, 2, 1],
    [0, 0, 0, 0, 0, 0, 1, 1, 0, 1, 2, 2, 0, 1, 2, 2],
    [0, 0, 0, 0, 1, 1, 0, 0, 2, 2, 1, 0, 2, 2, 1, 0],
    [0, 1, 2, 2, 0, 1, 2, 2, 0, 0, 1, 1, 0, 0, 0, 0],
    [0, 0, 1, 2, 0, 0, 1, 2, 1, 1, 2, 2, 2, 2, 2, 2],
    [0, 1, 1, 0, 1, 2, 2, 1, 1, 2, 2, 1, 0, 1, 1, 0],
    [0, 0, 0, 0, 0, 1, 1, 0, 1, 2, 2, 1, 1, 2, 2, 1],
    [0, 0, 2, 2, 1, 1, 0, 2, 1, 1, 0, 2, 0, 0, 2, 2],
    [0, 1, 1, 0, 0, 1, 1, 0, 2, 0, 0, 2, 2, 2, 2, 2],
    [0, 0, 1, 1, 0, 1, 2, 2, 0, 1, 2, 2, 0, 0, 1, 1],
    [0, 0, 0, 0, 2, 0, 0, 0, 2, 2, 1, 1, 2, 2, 2, 1],
    [0, 0, 0, 0, 0, 0, 0, 2, 1, 1, 2, 2, 1, 2, 2, 2],
    [0, 2, 2, 2, 0, 0, 2, 2, 0, 0, 1, 2, 0, 0, 1, 1],
    [0, 0, 1, 1, 0, 0, 1, 2, 0, 0, 2, 2, 0, 2, 2, 2],
    [0, 1, 2, 0, 0, 1, 2, 0, 0, 1, 2, 0, 0, 1, 2, 0],
    [0, 0, 0, 0, 1, 1, 1, 1, 2, 2, 2, 2, 0, 0, 0, 0],
    [0, 1, 2, 0, 1, 2, 0, 1, 2, 0, 1, 2, 0, 1, 2, 0],
    [0, 1, 2, 0, 2, 0, 1, 2, 1, 2, 0, 1, 0, 1, 2, 0],
    [0, 0, 1, 1, 2, 2, 0, 0, 1, 1, 2, 2, 0, 0, 1, 1],
    [0, 0, 1, 1, 1, 1, 2, 2, 2, 2, 0, 0, 0, 0, 1, 1],
    [0, 1, 0, 1, 0, 1, 0, 1, 2, 2, 2, 2, 2, 2, 2, 2],
    [0, 0, 0, 0, 0, 0, 0, 0, 2, 1, 2, 1, 2, 1, 2, 1],
    [0, 0, 2, 2, 1, 1, 2, 2, 0, 0, 2, 2, 1, 1, 2, 2],
    [0, 0, 2, 2, 0, 0, 1, 1, 0, 0, 2, 2, 0, 0, 1, 1],
    [0, 2, 2, 0, 1, 2, 2, 1, 0, 2, 2, 0, 1, 2, 2, 1],
    [0, 1, 0, 1, 2, 2, 2, 2, 2, 2, 2, 2, 0, 1, 0, 1],
    [0, 0, 0, 0, 2, 1, 2, 1, 2, 1, 2, 1, 2, 1, 2, 1],
    [0, 1, 0, 1, 0, 1, 0, 1, 0, 1, 0, 1, 2, 2, 2, 2],
    [0, 2, 2, 2, 0, 1, 1, 1, 0, 2, 2, 2, 0, 1, 1, 1],
    [0, 0, 0, 2, 1, 1, 1, 2, 0, 0, 0, 2, 1, 1, 1, 2],
    [0, 0, 0, 0, 2, 1, 1, 2, 2, 1, 1, 2, 2, 1, 1, 2],
    [0, 2, 2, 2, 0, 1, 1, 1, 0, 1, 1, 1, 0, 2, 2, 2],
    [0, 0, 0, 2, 1, 1, 1, 2, 1, 1, 1, 2, 0, 0, 0, 2],
    [0, 1, 1, 0, 0, 1, 1, 0, 0, 1, 1, 0, 2, 2, 2, 2],
    [0, 0, 0, 0, 0, 0, 0, 0, 2, 1, 1, 2, 2, 1, 1, 2],
    [0, 1, 1, 0, 0, 1, 1, 0, 2, 2, 2, 2, 2, 2, 2, 2],
    [0, 0, 2, 2, 0, 0, 1, 1, 0, 0, 1, 1, 0, 0, 2, 2],
    [0, 0, 2, 2, 1, 1, 2, 2, 1, 1, 2, 2, 0, 0, 2, 2],
    [0, 0, 0, 0, 0, 0, 0, 0, 0, 0, 0, 0, 2, 1, 1, 2],
    [0, 0, 0, 2, 0, 0, 0, 1, 0, 0, 0, 2, 0, 0, 0, 1],
    [0, 2, 2, 2, 1, 2, 2, 2, 0, 2, 2, 2, 1, 2, 2, 2],
    [0, 1, 0, 1, 2, 2, 2, 2, 2, 2, 2, 2, 2, 2, 2, 2],
    [0, 1, 1, 1, 2, 0, 1, 1, 2, 2, 0, 1, 2, 2, 2, 0],
];

/// Anchor texel position of subset 0 per partition: always position 0.
pub const ANCHOR_INDICES_SUBSET_0: [u8; 64] = [
    0, 0, 0, 0, 0, 0, 0, 0, 0, 0, 0, 0, 0, 0, 0, 0, 0, 0, 0, 0, 0, 0, 0, 0, 0, 0, 0, 0, 0, 0, 0,
    0, 0, 0, 0, 0, 0, 0, 0, 0, 0, 0, 0, 0, 0, 0, 0, 0, 0, 0, 0, 0, 0, 0, 0, 0, 0, 0, 0, 0, 0, 0,
    0, 0,
];

/// Anchor texel position of subset 1 per partition, for 2-subset modes.
pub const ANCHOR_INDICES_SUBSET_2_2: [u8; 64] = [
    15, 15, 15, 15, 15, 15, 15, 15, 15, 15, 15, 15, 15, 15, 15, 15, 15, 2, 8, 2, 2, 8, 8, 15, 2,
    8, 2, 2, 8, 8, 2, 2, 15, 15, 6, 8, 2, 8, 15, 15, 2, 8, 2, 2, 2, 15, 15, 6, 6, 2, 6, 8, 15, 15,
    2, 2, 15, 15, 15, 15, 15, 2, 2, 15,
];

/// Anchor texel position of subset 1 per partition, for 3-subset modes.
pub const ANCHOR_INDICES_SUBSET_3_2: [u8; 64] = [
    3, 3, 15, 15, 8, 3, 15, 15, 8, 8, 6, 6, 6, 5, 3, 3, 3, 3, 8, 15, 3, 3, 6, 10, 5, 8, 8, 6, 8,
    5, 15, 15, 8, 15, 3, 5, 6, 10, 8, 15, 15, 3, 15, 5, 15, 15, 15, 15, 3, 15, 5, 5, 5, 8, 5, 10,
    5, 10, 8, 13, 15, 12, 3, 3,
];

/// Anchor texel position of subset 2 per partition, for 3-subset modes.
pub const ANCHOR_INDICES_SUBSET_3_3: [u8; 64] = [
    15, 8, 8, 3, 15, 15, 3, 8, 15, 15, 15, 15, 15, 15, 15, 8, 15, 8, 15, 3, 15, 8, 15, 8, 3, 15,
    6, 10, 15, 15, 10, 8, 15, 3, 15, 10, 10, 8, 9, 10, 6, 15, 8, 15, 3, 6, 6, 8, 15, 3, 15, 15,
    15, 15, 15, 15, 15, 15, 15, 15, 3, 15, 15, 8,
];

// --- Facts about the tables ---

pub proof fn lemma_partition_subset_bounds()
    ensures
        forall|i: int, j: int|
            0 <= i < 64 && 0 <= j < 16 ==> #[trigger] PARTITION_SUBSET_2[i][j] <= 1,
        forall|i: int, j: int|
            0 <= i < 64 && 0 <= j < 16 ==> #[trigger] PARTITION_SUBSET_3[i][j] <= 2,
{
    assert forall|i: int, j: int|
        0 <= i < 64 && 0 <= j < 16 implies #[trigger] PARTITION_SUBSET_2[i][j] <= 1 by {
        assert(0 <= i < 64);
    }
    assert forall|i: int, j: int|
        0 <= i < 64 && 0 <= j < 16 implies #[trigger] PARTITION_SUBSET_3[i][j] <= 2 by {
        assert(0 <= i < 64);
    }
}

pub proof fn lemma_anchor_facts()
    ensures
        forall|i: int| 0 <= i < 64 ==> #[trigger] ANCHOR_INDICES_SUBSET_0[i] == 0,
        forall|i: int| 0 <= i < 64 ==> 0 < #[trigger] ANCHOR_INDICES_SUBSET_3_2[i] < 16,
        forall|i: int| 0 <= i < 64 ==> 0 < #[trigger] ANCHOR_INDICES_SUBSET_3_3[i] < 16,
        forall|i: int|
            0 <= i < 64 ==> #[trigger] ANCHOR_INDICES_SUBSET_3_2[i]
                != ANCHOR_INDICES_SUBSET_3_3[i],
{
    assert forall|i: int| 0 <= i < 64 implies #[trigger] ANCHOR_INDICES_SUBSET_0[i] == 0 by {
        assert(0 <= i < 64);
    }
    assert forall|i: int|
        0 <= i < 64 implies 0 < #[trigger] ANCHOR_INDICES_SUBSET_3_2[i] < 16 && 0
        < ANCHOR_INDICES_SUBSET_3_3[i] < 16 && ANCHOR_INDICES_SUBSET_3_2[i]
        != ANCHOR_INDICES_SUBSET_3_3[i] by {
        assert(0 <= i < 64);
    }
}

pub proof fn lemma_weight_bounds()
    ensures
        forall|i: int| 0 <= i < 4 ==> #[trigger] WEIGHTS_2[i] <= 64,
        forall|i: int| 0 <= i < 8 ==> #[trigger] WEIGHTS_3[i] <= 64,
        forall|i: int| 0 <= i < 16 ==> #[trigger] WEIGHTS_4[i] <= 64,
{
}

// --- The Mode 0 block layout, bit by bit ---

/// The 4-bit partition field follows the single mode header bit.
pub open spec fn spec_partition(b: Seq<u8>) -> int {
    spec_bits(b, 1, 4)
}

/// The raw 4-bit endpoint field of channel `chan` (0 = R, 1 = G, 2 = B)
/// of endpoint `j`: the endpoint fields are component-planar, all six R
/// fields first, then all six G, then all six B.
pub open spec fn spec_ep_raw(b: Seq<u8>, chan: int, j: int) -> int {
    spec_bits(b, 5 + 24 * chan + 4 * j, 4)
}

/// The P-bit of endpoint `j`: one per endpoint, after the endpoint fields.
pub open spec fn spec_pbit(b: Seq<u8>, j: int) -> int {
    spec_bits(b, 77 + j, 1)
}

/// The 8-bit expansion of a 4-bit component `v` with its P-bit `p`: `v`
/// becomes the top nibble, the P-bit becomes bit 3, and the top 3 bits of
/// `v` repeat below it.
pub open spec fn spec_expand(v: int, p: int) -> u8 {
    (16 * v + 8 * p + v / 2) as u8
}

/// Endpoint `j` of a Mode 0 block, expanded to 8 bits per channel. The
/// alpha channel carries no endpoint data in Mode 0.
pub open spec fn spec_mode0_endpoint(b: Seq<u8>, j: int) -> Rgba8 {
    Rgba8 {
        r: spec_expand(spec_ep_raw(b, 0, j), spec_pbit(b, j)),
        g: spec_expand(spec_ep_raw(b, 1, j), spec_pbit(b, j)),
        b: spec_expand(spec_ep_raw(b, 2, j), spec_pbit(b, j)),
        a: 0,
    }
}

/// The subset id of texel position `p` under `num_subsets` subsets and
/// partition `partition`. The position index is y-major: column + row*4.
#[verifier::opaque]
pub open spec fn spec_subset_index(num_subsets: u8, partition: int, p: int) -> u8 {
    if num_subsets == 2 {
        PARTITION_SUBSET_2[partition][p]
    } else {
        PARTITION_SUBSET_3[partition][p]
    }
}

/// Whether texel position `p` is one of the partition's anchor positions
/// under 3 subsets; an anchor's index field is stored with one fewer bit.
#[verifier::opaque]
pub open spec fn spec_is_anchor3(partition: int, p: int) -> bool {
    p == ANCHOR_INDICES_SUBSET_0[partition] || p == ANCHOR_INDICES_SUBSET_3_2[partition] || p
        == ANCHOR_INDICES_SUBSET_3_3[partition]
}

/// The width of the color-index field of texel position `p` in a Mode 0
/// block (base 3 bits, 2 at an anchor position).
#[verifier::opaque]
pub open spec fn spec_index_width3(partition: int, p: int) -> int {
    if spec_is_anchor3(partition, p) {
        2
    } else {
        3
    }
}

/// The bit offset of texel `p`'s color-index field past the endpoint
/// fields: the sum of the widths of the fields before it, in raster order.
pub open spec fn spec_index_offset3(partition: int, p: int) -> int
    decreases p,
{
    if p <= 0 {
        0
    } else {
        spec_index_offset3(partition, p - 1) + spec_index_width3(partition, p - 1)
    }
}

/// The offset is exactly 3 bits per preceding texel, less 1 for each
/// anchor position already passed.
pub proof fn lemma_index_offset3(partition: int, p: int)
    requires
        0 <= partition < 64,
        0 <= p <= 16,
    ensures
        spec_index_offset3(partition, p) == 3 * p - (if 0 < p {
            1int
        } else {
            0int
        }) - (if ANCHOR_INDICES_SUBSET_3_2[partition] < p {
            1int
        } else {
            0int
        }) - (if ANCHOR_INDICES_SUBSET_3_3[partition] < p {
            1int
        } else {
            0int
        }),
    decreases p,
{
    reveal_with_fuel(spec_index_offset3, 1);
    reveal(spec_index_width3);
    reveal(spec_is_anchor3);
    lemma_anchor_facts();
    if p > 0 {
        lemma_index_offset3(partition, p - 1);
    }
}

/// All 16 index fields fit the 45 bits that remain after the endpoint
/// fields: a Mode 0 block is exactly 128 bits.
pub proof fn lemma_index_offset3_bounds(partition: int, p: int)
    requires
        0 <= partition < 64,
        0 <= p <= 16,
    ensures
        0 <= spec_index_offset3(partition, p) <= 45,
        p < 16 ==> spec_index_offset3(partition, p) + spec_index_width3(partition, p)
            == spec_index_offset3(partition, p + 1),
        spec_index_offset3(partition, 16) == 45,
{
    reveal(spec_index_width3);
    reveal(spec_is_anchor3);
    lemma_anchor_facts();
    lemma_index_offset3(partition, p);
    lemma_index_offset3(partition, 16);
    if p < 16 {
        lemma_index_offset3(partition, p + 1);
    }
}

/// The color index of texel position `p`, read at its offset with its
/// anchor-aware width.
pub open spec fn spec_mode0_index_at(b: Seq<u8>, partition: int, p: int) -> int {
    spec_bits(b, 83 + spec_index_offset3(partition, p), spec_index_width3(partition, p))
}

/// Reconstructed channel value: a 64-based weighted blend of the two
/// endpoint channels, selected by the color index. The 2-bit weight table
/// adds a rounding term of 32 that the 3- and 4-bit tables omit.
#[verifier::opaque]
pub open spec fn spec_interpolate(start: u8, end: u8, index: int, bitcount: int) -> u8 {
    if bitcount == 2 {
        (((64 - WEIGHTS_2[index]) * start + WEIGHTS_2[index] * end + 32) / 64) as u8
    } else if bitcount == 3 {
        (((64 - WEIGHTS_3[index]) * start + WEIGHTS_3[index] * end) / 64) as u8
    } else {
        (((64 - WEIGHTS_4[index]) * start + WEIGHTS_4[index] * end) / 64) as u8
    }
}

/// Texel at y-major position `p` of a Mode 0 block: its subset's two
/// endpoints blended by its 3-bit color index; Mode 0 carries no alpha,
/// so the texel is fully opaque.
pub open spec fn spec_mode0_texel(b: Seq<u8>, p: int) -> Rgba8 {
    let partition = spec_partition(b);
    let s = spec_subset_index(3, partition, p) as int;
    let e0 = spec_mode0_endpoint(b, 2 * s);
    let e1 = spec_mode0_endpoint(b, 2 * s + 1);
    let idx = spec_mode0_index_at(b, partition, p);
    Rgba8 {
        r: spec_interpolate(e0.r, e1.r, idx, 3),
        g: spec_interpolate(e0.g, e1.g, idx, 3),
        b: spec_interpolate(e0.b, e1.b, idx, 3),
        a: 255,
    }
}

pub open spec fn spec_zero_texels() -> Seq<Rgba8> {
    Seq::new(16, |p: int| Rgba8 { r: 0, g: 0, b: 0, a: 0 })
}

/// What a BC7 block decodes to, for the modes the decoder covers: the
/// invalid header's defined fallback, or the Mode 0 texels. `None` marks
/// a mode the decoder must refuse rather than guess at.
pub open spec fn spec_bc7_decode(b: Seq<u8>) -> Option<Seq<Rgba8>> {
    match spec_mode(b) {
        Mode::Invalid => Some(spec_zero_texels()),
        Mode::Mode0 => Some(Seq::new(16, |p: int| spec_mode0_texel(b, p))),
        _ => None,
    }
}

// --- The decoder ---

/// Read the unary mode header: the position of the first set bit selects
/// the mode, and eight clear bits leave the block invalid.
pub fn decode_mode(reader: &mut BitReader<16>) -> (m: Mode)
    requires
        old(reader).cursor == 0,
    ensures
        final(reader).state@ == old(reader).state@,
        m == spec_mode(old(reader).state@),
        final(reader).cursor == spec_mode_header_bits(m),
{
    let ghost b = old(reader).state@;
    proof {
        vstd::arithmetic::power2::lemma2_to64();
        assert forall|k: int| 0 <= k < 8 implies spec_bits(b, k, 1) == spec_bit(b, k) by {
            lemma_spec_bits_one(b, k);
        }
    }
    // Eat bits until we find the '1' indicating the mode.
    if reader.read(1) == 1 {
        return Mode::Mode0;
    }
    if reader.read(1) == 1 {
        return Mode::Mode1;
    }
    if reader.read(1) == 1 {
        return Mode::Mode2;
    }
    if reader.read(1) == 1 {
        return Mode::Mode3;
    }
    if reader.read(1) == 1 {
        return Mode::Mode4;
    }
    if reader.read(1) == 1 {
        return Mode::Mode5;
    }
    if reader.read(1) == 1 {
        return Mode::Mode6;
    }
    if reader.read(1) == 1 {
        return Mode::Mode7;
    }
    // The first byte holds an all-zero bit pattern: not a valid mode.
    Mode::Invalid
}

pub fn get_num_subsets(mode: Mode) -> (n: u8)
    requires
        mode != Mode::Invalid,
    ensures
        n == spec_num_subsets(mode),
{
    match mode {
        Mode::Mode0 => 3,
        Mode::Mode1 => 2,
        Mode::Mode2 => 3,
        Mode::Mode3 => 2,
        Mode::Mode4 => 1,
        Mode::Mode5 => 1,
        Mode::Mode6 => 1,
        Mode::Mode7 => 2,
        Mode::Invalid => {
            proof {
                assert(false);
            }
            0
        },
    }
}

/// Read the partition field that follows the mode header. Only Mode 0's
/// 4-bit field is covered; the other partitioned modes are refused before
/// their partition is reached.
pub fn decode_partition(mode: Mode, reader: &mut BitReader<16>) -> (partition: u8)
    requires
        mode == Mode::Mode0,
        old(reader).cursor == 1,
    ensures
        final(reader).state@ == old(reader).state@,
        final(reader).cursor == 5,
        partition == spec_partition(old(reader).state@),
        partition < 16,
{
    proof {
        vstd::arithmetic::power2::lemma2_to64();
    }
    let v = reader.read(4);
    v as u8
}

/// Look the texel's subset id up in the partition table. The position
/// index is y-major: column + row*4.
pub fn get_subset_index(num_subsets: u8, partition_index: u8, x: u8, y: u8) -> (s: u8)
    requires
        num_subsets == 2 || num_subsets == 3,
        partition_index < 64,
        x < 4,
        y < 4,
    ensures
        s == spec_subset_index(num_subsets, partition_index as int, x + 4 * y),
        s < num_subsets,
{
    proof {
        reveal(spec_subset_index);
        lemma_partition_subset_bounds();
    }
    let pos = x as usize + y as usize * 4;
    if num_subsets == 2 {
        PARTITION_SUBSET_2[partition_index as usize][pos]
    } else {
        PARTITION_SUBSET_3[partition_index as usize][pos]
    }
}

/// Read the six endpoints of a Mode 0 block: six 4-bit fields per
/// channel, component-planar, then one P-bit per endpoint, and expand
/// each channel to 8 bits.
pub fn decode_endpoints(mode: Mode, reader: &mut BitReader<16>) -> (output: [Rgba8; 6])
    requires
        mode == Mode::Mode0,
        old(reader).cursor == 5,
    ensures
        final(reader).state@ == old(reader).state@,
        final(reader).cursor == 83,
        forall|j: int| 0 <= j < 6 ==> output@[j] == spec_mode0_endpoint(old(reader).state@, j),
{
    let ghost b = old(reader).state@;
    proof {
        vstd::arithmetic::power2::lemma2_to64();
    }
    let mut output: [Rgba8; 6] = [Rgba8 { r: 0, g: 0, b: 0, a: 0 }; 6];

    let mut index: usize = 0;
    while index < 6
        invariant
            index <= 6,
            reader.state@ == b,
            reader.cursor == 5 + 4 * index,
            forall|j: int|
                0 <= j < index ==> output@[j] == (Rgba8 {
                    r: spec_ep_raw(b, 0, j) as u8,
                    g: 0,
                    b: 0,
                    a: 0,
                }),
            forall|j: int|
                index <= j < 6 ==> output@[j] == (Rgba8 { r: 0, g: 0, b: 0, a: 0 }),
        decreases 6 - index,
    {
        proof {
            vstd::arithmetic::power2::lemma2_to64();
        }
        let v = reader.read(4) as u8;
        let c = output[index];
        output[index] = Rgba8 { r: v, g: c.g, b: c.b, a: c.a };
        index = index + 1;
    }

    let mut index: usize = 0;
    while index < 6
        invariant
            index <= 6,
            reader.state@ == b,
            reader.cursor == 29 + 4 * index,
            forall|j: int|
                0 <= j < index ==> output@[j] == (Rgba8 {
                    r: spec_ep_raw(b, 0, j) as u8,
                    g: spec_ep_raw(b, 1, j) as u8,
                    b: 0,
                    a: 0,
                }),
            forall|j: int|
                index <= j < 6 ==> output@[j] == (Rgba8 {
                    r: spec_ep_raw(b, 0, j) as u8,
                    g: 0,
                    b: 0,
                    a: 0,
                }),
        decreases 6 - index,
    {
        proof {
            vstd::arithmetic::power2::lemma2_to64();
        }
        let v = reader.read(4) as u8;
        let c = output[index];
        output[index] = Rgba8 { r: c.r, g: v, b: c.b, a: c.a };
        index = index + 1;
    }

    let mut index: usize = 0;
    while index < 6
        invariant
            index <= 6,
            reader.state@ == b,
            reader.cursor == 53 + 4 * index,
            forall|j: int|
                0 <= j < index ==> output@[j] == (Rgba8 {
                    r: spec_ep_raw(b, 0, j) as u8,
                    g: spec_ep_raw(b, 1, j) as u8,
                    b: spec_ep_raw(b, 2, j) as u8,
                    a: 0,
                }),
            forall|j: int|
                index <= j < 6 ==> output@[j] == (Rgba8 {
                    r: spec_ep_raw(b, 0, j) as u8,
                    g: spec_ep_raw(b, 1, j) as u8,
                    b: 0,
                    a: 0,
                }),
        decreases 6 - index,
    {
        proof {
            vstd::arithmetic::power2::lemma2_to64();
        }
        let v = reader.read(4) as u8;
        let c = output[index];
        output[index] = Rgba8 { r: c.r, g: c.g, b: v, a: c.a };
        index = index + 1;
    }

    // P-bits as LSB: bit 3 of each expanded component.
    let mut index: usize = 0;
    while index < 6
        invariant
            index <= 6,
            reader.state@ == b,
            reader.cursor == 77 + index,
            forall|j: int| 0 <= j < index ==> output@[j] == spec_mode0_endpoint(b, j),
            forall|j: int|
                index <= j < 6 ==> output@[j] == (Rgba8 {
                    r: spec_ep_raw(b, 0, j) as u8,
                    g: spec_ep_raw(b, 1, j) as u8,
                    b: spec_ep_raw(b, 2, j) as u8,
                    a: 0,
                }),
        decreases 6 - index,
    {
        proof {
            vstd::arithmetic::power2::lemma2_to64();
            lemma_spec_bits_bound(b, 5 + 4 * (index as int), 4);
            lemma_spec_bits_bound(b, 29 + 4 * (index as int), 4);
            lemma_spec_bits_bound(b, 53 + 4 * (index as int), 4);
        }
        let pb = reader.read(1) as u8;
        let c = output[index];
        let p = pb << 3u8;

        // Duplicate the color bits for the lower bits after the P-bit.
        let low_r = c.r >> 1u8;
        let low_g = c.g >> 1u8;
        let low_b = c.b >> 1u8;

        proof {
            let vr = c.r;
            let vg = c.g;
            let vb = c.b;
            assert((vr << 4u8) | (pb << 3u8) | (vr >> 1u8) == 16 * vr + 8 * pb + vr / 2 && (vg
                << 4u8) | (pb << 3u8) | (vg >> 1u8) == 16 * vg + 8 * pb + vg / 2 && (vb << 4u8)
                | (pb << 3u8) | (vb >> 1u8) == 16 * vb + 8 * pb + vb / 2) by (bit_vector)
                requires
                    vr < 16,
                    vg < 16,
                    vb < 16,
                    pb < 2,
            ;
        }
        output[index] = Rgba8 {
            r: (c.r << 4u8) | p | low_r,
            g: (c.g << 4u8) | p | low_g,
            b: (c.b << 4u8) | p | low_b,
            a: c.a,
        };
        index = index + 1;
    }

    output
}


/// Read the texel's color-index field: the base 3 bits of Mode 0, one
/// fewer at an anchor position. The reader must stand at this texel's
/// field, which places the fields texel by texel in raster order.
pub fn get_color_index(
    mode: Mode,
    reader: &mut BitReader<16>,
    x: u8,
    y: u8,
    num_subsets: u8,
    partition: u8,
) -> (idx: u8)
    requires
        mode == Mode::Mode0,
        num_subsets == 3,
        partition < 64,
        x < 4,
        y < 4,
        old(reader).cursor == 83 + spec_index_offset3(partition as int, x + 4 * y),
    ensures
        final(reader).state@ == old(reader).state@,
        final(reader).cursor == 83 + spec_index_offset3(partition as int, x + 4 * y + 1),
        idx == spec_mode0_index_at(old(reader).state@, partition as int, x + 4 * y),
        idx < 8,
{
    let partition_index = x + y * 4;
    proof {
        reveal(spec_index_width3);
        reveal(spec_is_anchor3);
        lemma_index_offset3_bounds(partition as int, partition_index as int);
        lemma_index_offset3_bounds(partition as int, partition_index as int + 1);
        vstd::arithmetic::power2::lemma2_to64();
    }

    let read_len: usize = if partition_index == ANCHOR_INDICES_SUBSET_0[partition as usize] {
        3 - 1
    } else if partition_index == ANCHOR_INDICES_SUBSET_3_2[partition as usize] {
        3 - 1
    } else if partition_index == ANCHOR_INDICES_SUBSET_3_3[partition as usize] {
        3 - 1
    } else {
        3
    };

    let v = reader.read(read_len);
    v as u8
}

pub fn get_color_bitcount(mode: Mode) -> (n: u8)
    requires
        mode == Mode::Mode0,
    ensures
        n == 3,
{
    match mode {
        Mode::Mode0 => 3,
        _ => {
            proof {
                assert(false);
            }
            3
        },
    }
}

/// Blend two endpoint channel values by the weight the color index
/// selects from the table of its bit width.
pub fn interpolate(start: u8, end: u8, index: u8, index_bitcount: u8) -> (v: u8)
    requires
        index_bitcount == 2 || index_bitcount == 3 || index_bitcount == 4,
        index < (1u8 << index_bitcount),
    ensures
        v == spec_interpolate(start, end, index as int, index_bitcount as int),
{
    proof {
        reveal(spec_interpolate);
        lemma_weight_bounds();
        assert(1u8 << 2u8 == 4 && 1u8 << 3u8 == 8 && 1u8 << 4u8 == 16) by (bit_vector);
    }
    let w: u16 = if index_bitcount == 2 {
        WEIGHTS_2[index as usize]
    } else if index_bitcount == 3 {
        WEIGHTS_3[index as usize]
    } else {
        WEIGHTS_4[index as usize]
    };
    // The 2-bit weight table is the one with a rounding term.
    let rounding: u16 = if index_bitcount == 2 {
        32
    } else {
        0
    };
    proof {
        assert((64 - w) * (start as u16) + w * (end as u16) <= 64 * 255) by (nonlinear_arith)
            requires
                w <= 64,
                start <= 255,
                end <= 255,
        ;
    }
    let acc = (64 - w) * (start as u16) + w * (end as u16) + rounding;
    proof {
        assert(acc >> 6u16 == acc / 64) by (bit_vector);
    }
    (acc >> 6u16) as u8
}

/// Decode the texel at column `x`, row `y` of a BC7 block, reparsing the
/// block from its start.
pub fn decode_texel(input: Block16, x: u8, y: u8) -> (r: Result<Rgba8, Bc7Error>)
    requires
        x < 4,
        y < 4,
    ensures
        spec_mode(input@) == Mode::Invalid ==> r == Ok::<Rgba8, Bc7Error>(
            Rgba8 { r: 0, g: 0, b: 0, a: 0 },
        ),
        spec_mode(input@) == Mode::Mode0 ==> r == Ok::<Rgba8, Bc7Error>(
            spec_mode0_texel(input@, x + 4 * y),
        ),
        spec_mode(input@) != Mode::Invalid && spec_mode(input@) != Mode::Mode0 ==> r
            == Err::<Rgba8, Bc7Error>(Bc7Error::Unsupported(spec_mode(input@))),
{
    let mut reader = BitReader::new(input);

    let mode = decode_mode(&mut reader);

    // An all-zero bit pattern is invalid. The decoder must return a
    // zeroed block.
    if mode == Mode::Invalid {
        return Ok(Rgba8 { r: 0, g: 0, b: 0, a: 0 });
    }
    // Any other mode would decode to silently wrong pixels: refuse it
    // distinguishably instead.
    if mode != Mode::Mode0 {
        return Err(Bc7Error::Unsupported(mode));
    }

    let num_subsets = get_num_subsets(mode);
    let partition = decode_partition(mode, &mut reader);
    let subset_index = get_subset_index(num_subsets, partition, x, y);

    let endpoints = decode_endpoints(mode, &mut reader);

    let endpoint_start = endpoints[2 * subset_index as usize];
    let endpoint_end = endpoints[2 * subset_index as usize + 1];

    // Index fields sit texel by texel in raster order: skip those of the
    // texels before this one.
    let p = x + 4 * y;
    proof {
        reveal_with_fuel(spec_index_offset3, 1);
        assert(spec_index_offset3(partition as int, 0) == 0);
    }
    let mut q: u8 = 0;
    while q < p
        invariant
            q <= p,
            p == x + 4 * y,
            x < 4,
            y < 4,
            partition < 16,
            reader.state@ == input@,
            reader.cursor == 83 + spec_index_offset3(partition as int, q as int),
        decreases p - q,
    {
        get_color_index(Mode::Mode0, &mut reader, q % 4, q / 4, 3, partition);
        q = q + 1;
    }

    let color_index = get_color_index(Mode::Mode0, &mut reader, x, y, num_subsets, partition);
    let color_bitcount = get_color_bitcount(mode);

    proof {
        assert(1u8 << 3u8 == 8) by (bit_vector);
    }
    let r = interpolate(endpoint_start.r, endpoint_end.r, color_index, color_bitcount);
    let g = interpolate(endpoint_start.g, endpoint_end.g, color_index, color_bitcount);
    let b = interpolate(endpoint_start.b, endpoint_end.b, color_index, color_bitcount);
    let a: u8 = 255;

    Ok(Rgba8 { r, g, b, a })
}

/// Decode a single BC7 block into 16 texels in row-major 4x4 order, or
/// refuse it: an all-zero mode header yields the defined all-zero block,
/// and a mode the decoder does not cover comes back as an explicit
/// unsupported-mode error, never as wrong pixels.
pub fn decode(input: Block16) -> (r: Result<[Rgba8; 16], Bc7Error>)
    ensures
        spec_bc7_decode(input@) matches Some(texels) ==> r matches Ok(out) && out@ == texels,
        spec_bc7_decode(input@) is None ==> r == Err::<[Rgba8; 16], Bc7Error>(
            Bc7Error::Unsupported(spec_mode(input@)),
        ),
{
    let mut output: [Rgba8; 16] = [Rgba8 { r: 0, g: 0, b: 0, a: 0 }; 16];

    let mut p: usize = 0;
    while p < 16
        invariant
            p <= 16,
            p > 0 ==> spec_mode(input@) == Mode::Invalid || spec_mode(input@) == Mode::Mode0,
            forall|q: int|
                0 <= q < p && spec_mode(input@) == Mode::Invalid ==> output@[q] == (Rgba8 {
                    r: 0,
                    g: 0,
                    b: 0,
                    a: 0,
                }),
            forall|q: int|
                0 <= q < p && spec_mode(input@) == Mode::Mode0 ==> output@[q]
                    == spec_mode0_texel(input@, q),
        decreases 16 - p,
    {
        let x = (p % 4) as u8;
        let y = (p / 4) as u8;
        match decode_texel(input, x, y) {
            Ok(t) => {
                output[p] = t;
            },
            Err(e) => {
                return Err(e);
            },
        }
        p = p + 1;
    }

    proof {
        if spec_mode(input@) == Mode::Invalid {
            assert(output@ =~= spec_zero_texels());
        } else {
            assert(output@ =~= Seq::new(16, |q: int| spec_mode0_texel(input@, q)));
        }
    }
    Ok(output)
}

} // verus!
