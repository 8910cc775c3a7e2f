//! The BC2 (DXT3) block codec: 16 RGBA texels in, a 16-byte block out, and
//! back. The first 8 bytes store one explicit 4-bit alpha per texel; the
//! last 8 bytes are the BC1 encoding of the RGB projection.

use crate::{bc1, spec_rgb_seq, Block16, Rgb8, Rgba8};
use vstd::prelude::*;

verus! {

/// The alpha byte covering texels `2k` and `2k + 1`: each alpha is
/// quantized to its top 4 bits' worth of precision, and the earlier texel
/// takes the high nibble.
pub open spec fn spec_alpha_byte(texels: Seq<Rgba8>, k: int) -> u8 {
    (16 * (texels[2 * k].a / 16) + texels[2 * k + 1].a / 16) as u8
}

/// The 16 bytes of the BC2 encoding of 16 texels: 8 alpha bytes, then the
/// BC1 color section.
pub open spec fn spec_bc2_encode(texels: Seq<Rgba8>) -> Seq<u8>
    recommends
        texels.len() == 16,
{
    Seq::new(8, |k: int| spec_alpha_byte(texels, k)) + bc1::spec_bc1_encode(spec_rgb_seq(texels))
}

/// Encode 16 texels, in row-major 4x4 order, into a single BC2 block.
pub fn encode(input: [Rgba8; 16]) -> (out: Block16)
    ensures
        out@ == spec_bc2_encode(input@),
{
    let mut output: [u8; 16] = [0; 16];

    let mut k: usize = 0;
    while k < 8
        invariant
            k <= 8,
            forall|j: int| 0 <= j < k ==> output@[j] == spec_alpha_byte(input@, j),
        decreases 8 - k,
    {
        let a0 = input[2 * k].a / 16;
        let a1 = input[2 * k + 1].a / 16;
        output[k] = 16 * a0 + a1;
        k = k + 1;
    }

    // Color section has the same format as BC1, applied to the RGB
    // projection of the same texels.
    let mut rgb: [Rgb8; 16] = [Rgb8 { r: 0, g: 0, b: 0 }; 16];
    let mut i: usize = 0;
    while i < 16
        invariant
            i <= 16,
            forall|j: int| 0 <= j < 8 ==> output@[j] == spec_alpha_byte(input@, j),
            forall|j: int| 0 <= j < i ==> rgb@[j] == input@[j].spec_rgb(),
        decreases 16 - i,
    {
        rgb[i] = input[i].to_rgb8();
        i = i + 1;
    }
    proof {
        assert(rgb@ =~= spec_rgb_seq(input@));
    }
    let color_section = bc1::encode(rgb);

    let mut i: usize = 0;
    while i < 8
        invariant
            i <= 8,
            color_section@ == bc1::spec_bc1_encode(spec_rgb_seq(input@)),
            forall|j: int| 0 <= j < 8 ==> output@[j] == spec_alpha_byte(input@, j),
            forall|j: int| 0 <= j < i ==> output@[8 + j] == color_section@[j],
        decreases 8 - i,
    {
        output[8 + i] = color_section[i];
        i = i + 1;
    }
    proof {
        assert(output@ =~= spec_bc2_encode(input@));
    }
    output
}

/// The alpha of texel `p` stored in a BC2 block: the texel's nibble,
/// expanded by 16. The expansion tops out at 240, not 255, by design of
/// the format.
pub open spec fn spec_alpha_of(block: Seq<u8>, p: int) -> u8 {
    if p % 2 == 0 {
        ((block[p / 2] >> 4u8) * 16) as u8
    } else {
        ((block[p / 2] & 0x0F) * 16) as u8
    }
}

/// The 16 texels encoded by a BC2 block: RGB from the BC1 color section,
/// alpha from the per-texel nibbles.
pub open spec fn spec_bc2_decode(block: Seq<u8>) -> Seq<Rgba8>
    recommends
        block.len() == 16,
{
    let colors = bc1::spec_bc1_decode(block.subrange(8, 16));
    Seq::new(
        16,
        |p: int|
            Rgba8 {
                r: colors[p].r,
                g: colors[p].g,
                b: colors[p].b,
                a: spec_alpha_of(block, p),
            },
    )
}

/// Decode a single BC2 block into 16 texels in row-major 4x4 order.
pub fn decode(input: Block16) -> (out: [Rgba8; 16])
    ensures
        out@ == spec_bc2_decode(input@),
{
    let mut color_block: [u8; 8] = [0; 8];
    let mut i: usize = 0;
    while i < 8
        invariant
            i <= 8,
            forall|j: int| 0 <= j < i ==> color_block@[j] == input@[8 + j],
        decreases 8 - i,
    {
        color_block[i] = input[8 + i];
        i = i + 1;
    }
    proof {
        assert(color_block@ =~= input@.subrange(8, 16));
    }
    let colors = bc1::decode(color_block);

    let mut output: [Rgba8; 16] = [Rgba8 { r: 0, g: 0, b: 0, a: 0 }; 16];
    let mut p: usize = 0;
    while p < 16
        invariant
            p <= 16,
            colors@ == bc1::spec_bc1_decode(input@.subrange(8, 16)),
            forall|j: int| 0 <= j < p ==> output@[j] == spec_bc2_decode(input@)[j],
        decreases 16 - p,
    {
        let byte = input[p / 2];
        proof {
            assert(byte >> 4u8 < 16 && byte & 0x0F < 16) by (bit_vector);
        }
        let a = if p % 2 == 0 {
            (byte >> 4u8) * 16
        } else {
            (byte & 0x0F) * 16
        };
        let c = colors[p];
        output[p] = Rgba8 { r: c.r, g: c.g, b: c.b, a };
        p = p + 1;
    }
    proof {
        assert(output@ =~= spec_bc2_decode(input@));
    }
    output
}

// --- The format as a streaming-layer capability ---

/// The BC2 format, as the streaming layer sees it: 16-byte blocks of 4x4
/// texels.
pub struct Bc2;

impl crate::Sealed for Bc2 {
    open spec fn spec_block_size() -> usize {
        16
    }

    open spec fn spec_num_pixels() -> usize {
        4
    }

    fn block_size() -> usize {
        16
    }

    fn num_pixels() -> usize {
        4
    }
}

impl crate::Decoder for Bc2 {
    open spec fn spec_decoded(block: Seq<u8>) -> Seq<Rgba8> {
        spec_bc2_decode(block)
    }

    fn decode_block(block: &[u8]) -> (out: Vec<Rgba8>) {
        let mut fixed: [u8; 16] = [0; 16];
        let mut i: usize = 0;
        while i < 16
            invariant
                i <= 16,
                block@.len() == 16,
                forall|j: int| 0 <= j < i ==> fixed@[j] == block@[j],
            decreases 16 - i,
        {
            fixed[i] = block[i];
            i = i + 1;
        }
        proof {
            assert(fixed@ =~= block@);
        }
        let texels = decode(fixed);
        let mut out: Vec<Rgba8> = Vec::new();
        let mut i: usize = 0;
        while i < 16
            invariant
                i <= 16,
                texels@ == spec_bc2_decode(block@),
                out@.len() == i,
                forall|p: int| 0 <= p < i ==> out@[p] == spec_bc2_decode(block@)[p],
            decreases 16 - i,
        {
            out.push(texels[i]);
            i = i + 1;
        }
        proof {
            assert(out@ =~= Self::spec_decoded(block@));
        }
        out
    }
}

impl crate::Encoder for Bc2 {
    open spec fn spec_encoded(texels: Seq<Rgba8>) -> Seq<u8> {
        spec_bc2_encode(texels)
    }

    fn encode_block(texels: &[Rgba8]) -> (out: Vec<u8>) {
        let mut fixed: [Rgba8; 16] = [Rgba8 { r: 0, g: 0, b: 0, a: 0 }; 16];
        let mut i: usize = 0;
        while i < 16
            invariant
                i <= 16,
                texels@.len() == 16,
                forall|j: int| 0 <= j < i ==> fixed@[j] == texels@[j],
            decreases 16 - i,
        {
            fixed[i] = texels[i];
            i = i + 1;
        }
        proof {
            assert(fixed@ =~= texels@);
        }
        let block = encode(fixed);
        let mut out: Vec<u8> = Vec::new();
        let mut i: usize = 0;
        while i < 16
            invariant
                i <= 16,
                block@ == spec_bc2_encode(texels@),
                out@.len() == i,
                forall|j: int| 0 <= j < i ==> out@[j] == block@[j],
            decreases 16 - i,
        {
            out.push(block[i]);
            i = i + 1;
        }
        proof {
            assert(out@ =~= Self::spec_encoded(texels@));
        }
        out
    }
}

// --- Laws ---

/// BC2's color path is byte-identical to running BC1 standalone on the
/// RGB projection of the same texels: the color section of an encoded
/// block is exactly the BC1 block, and decoding reads it exactly as BC1
/// does.
pub proof fn lemma_bc2_color_path(texels: Seq<Rgba8>)
    requires
        texels.len() == 16,
    ensures
        spec_bc2_encode(texels).subrange(8, 16) == bc1::spec_bc1_encode(spec_rgb_seq(texels)),
        forall|p: int|
            0 <= p < 16 ==> #[trigger] spec_bc2_decode(spec_bc2_encode(texels))[p].spec_rgb()
                == bc1::spec_bc1_decode(bc1::spec_bc1_encode(spec_rgb_seq(texels)))[p],
{
    let enc = spec_bc2_encode(texels);
    assert(enc.subrange(8, 16) =~= bc1::spec_bc1_encode(spec_rgb_seq(texels)));
}

/// Quantized alpha always comes back as the original rounded down to the
/// nearest multiple of 16: the loss is at most 15, and a multiple of 16
/// round-trips exactly.
pub proof fn lemma_alpha_roundtrip(texels: Seq<Rgba8>, p: int)
    requires
        texels.len() == 16,
        0 <= p < 16,
    ensures
        spec_bc2_decode(spec_bc2_encode(texels))[p].a == 16 * (texels[p].a / 16),
        texels[p].a - 15 <= 16 * (texels[p].a / 16) <= texels[p].a,
{
    let enc = spec_bc2_encode(texels);
    let k = p / 2;
    assert(enc[k] == spec_alpha_byte(texels, k));
    let a0 = texels[2 * k].a / 16;
    let a1 = texels[2 * k + 1].a / 16;
    let byte = enc[k];
    assert(byte == 16 * a0 + a1);
    assert((16 * a0 + a1) as u8 >> 4u8 == a0 && (16 * a0 + a1) as u8 & 0x0F == a1)
        by (bit_vector)
        requires
            a0 < 16,
            a1 < 16,
    ;
    if p % 2 == 0 {
        assert(2 * k == p);
    } else {
        assert(2 * k + 1 == p);
    }
}

} // verus!
