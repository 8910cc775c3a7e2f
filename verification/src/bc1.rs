//! The BC1 (DXT1) block codec: 16 RGB texels in, an 8-byte block out, and
//! back. A block stores two RGB565 endpoints and one 2-bit palette index
//! per texel; the palette holds the endpoints and two interpolated blends.

use crate::{read_u16_le, spec_distance, spec_u16_le, Block8, Rgb8, Rgba8};
use vstd::prelude::*;

verus! {

// --- RGB565 quantization ---

/// The 16-bit RGB565 encoding of an 8-bit RGB color: each component is
/// divided down (truncating) and packed into the 5-6-5 bit fields.
pub open spec fn spec_encode_565(r: u8, g: u8, b: u8) -> u16 {
    (((r / 4) as u16) << 11u16) | (((g / 2) as u16) << 5u16) | ((b / 4) as u16)
}

/// The 8-bit expansion of an RGB565 color: each field is scaled back by
/// the factor it was divided by.
pub open spec fn spec_decode_565(c: u16) -> Rgb8 {
    Rgb8 {
        r: ((c >> 11u16) * 4) as u8,
        g: (((c >> 5u16) & 0x3F) * 2) as u8,
        b: ((c & 0x1F) * 4) as u8,
    }
}

pub fn encode_565_rgb(r: u8, g: u8, b: u8) -> (v: u16)
    ensures
        v == spec_encode_565(r, g, b),
{
    let rq = ((r / 4) as u16) << 11u16;
    let gq = ((g / 2) as u16) << 5u16;
    let bq = (b / 4) as u16;
    rq | gq | bq
}

pub fn decode_565_rgb(rgb: u16) -> (out: Rgb8)
    ensures
        out == spec_decode_565(rgb),
{
    let r = rgb >> 11u16;
    let g = (rgb >> 5u16) & 0x3F;
    let b = rgb & 0x1F;
    proof {
        assert(rgb >> 11u16 < 32 && (rgb >> 5u16) & 0x3F < 64 && rgb & 0x1F < 32)
            by (bit_vector);
    }
    Rgb8 { r: (r as u8) * 4, g: (g as u8) * 2, b: (b as u8) * 4 }
}

// --- The 4-color palette ---

/// One channel of the 2/3 : 1/3 blend of two palette endpoints,
/// integer-truncated.
pub open spec fn spec_mix(a: u8, b: u8) -> u8 {
    ((2 * (a as int) + (b as int)) / 3) as u8
}

/// The 4-color palette derived from two stored endpoints: the endpoints
/// themselves, then their 2/3:1/3 and 1/3:2/3 blends.
pub open spec fn spec_table_colors(c0: Rgb8, c1: Rgb8) -> Seq<Rgb8> {
    seq![
        c0,
        c1,
        Rgb8 { r: spec_mix(c0.r, c1.r), g: spec_mix(c0.g, c1.g), b: spec_mix(c0.b, c1.b) },
        Rgb8 { r: spec_mix(c1.r, c0.r), g: spec_mix(c1.g, c0.g), b: spec_mix(c1.b, c0.b) },
    ]
}

fn mix(a: u8, b: u8) -> (m: u8)
    ensures
        m == spec_mix(a, b),
{
    ((2 * (a as u16) + (b as u16)) / 3) as u8
}

/// The index of the first color among `cs[0..n]` at minimal squared
/// distance from `c`; ties resolve to the lowest index.
pub open spec fn spec_closest_prefix(cs: Seq<Rgb8>, c: Rgb8, n: int) -> int
    decreases n,
{
    if n <= 1 {
        0
    } else {
        let best = spec_closest_prefix(cs, c, n - 1);
        if spec_distance(c, cs[n - 1]) < spec_distance(c, cs[best]) {
            n - 1
        } else {
            best
        }
    }
}

/// The index of the first color of `cs` at minimal squared distance
/// from `c`.
pub open spec fn spec_closest(cs: Seq<Rgb8>, c: Rgb8) -> int {
    spec_closest_prefix(cs, c, cs.len() as int)
}

pub proof fn lemma_closest_prefix_props(cs: Seq<Rgb8>, c: Rgb8, n: int)
    requires
        1 <= n <= cs.len(),
    ensures
        0 <= spec_closest_prefix(cs, c, n) < n,
        forall|j: int|
            0 <= j < n ==> spec_distance(c, cs[spec_closest_prefix(cs, c, n)]) <= spec_distance(
                c,
                #[trigger] cs[j],
            ),
        forall|j: int|
            0 <= j < spec_closest_prefix(cs, c, n) ==> spec_distance(c, #[trigger] cs[j])
                > spec_distance(c, cs[spec_closest_prefix(cs, c, n)]),
    decreases n,
{
    if n > 1 {
        lemma_closest_prefix_props(cs, c, n - 1);
    }
}

/// The BC1 palette: 4 colors derived from 2 endpoints.
pub struct Table {
    pub colors: [Rgb8; 4],
}

impl Table {
    pub fn new(colors: [Rgb8; 2]) -> (t: Table)
        ensures
            t.colors@ == spec_table_colors(colors@[0], colors@[1]),
    {
        let c0 = colors[0];
        let c1 = colors[1];
        let c2 = Rgb8 { r: mix(c0.r, c1.r), g: mix(c0.g, c1.g), b: mix(c0.b, c1.b) };
        let c3 = Rgb8 { r: mix(c1.r, c0.r), g: mix(c1.g, c0.g), b: mix(c1.b, c0.b) };
        let t = Table { colors: [c0, c1, c2, c3] };
        proof {
            assert(t.colors@ =~= spec_table_colors(c0, c1));
        }
        t
    }

    pub fn get(&self, index: u8) -> (c: Rgb8)
        requires
            index < 4,
        ensures
            c == self.colors@[index as int],
    {
        self.colors[index as usize]
    }

    /// The index of the palette color closest to `color` by squared
    /// Euclidean distance, ties broken by the lowest index.
    pub fn closest(&self, color: Rgb8) -> (idx: u8)
        ensures
            idx == spec_closest(self.colors@, color),
            idx < 4,
            forall|j: int|
                0 <= j < 4 ==> spec_distance(color, self.colors@[idx as int]) <= spec_distance(
                    color,
                    #[trigger] self.colors@[j],
                ),
    {
        let mut index: usize = 0;
        let mut distance: i32 = i32::MAX;
        let mut i: usize = 0;
        while i < 4
            invariant
                i <= 4,
                i == 0 ==> index == 0 && distance == i32::MAX,
                i >= 1 ==> {
                    &&& index == spec_closest_prefix(self.colors@, color, i as int)
                    &&& 0 <= index < i
                    &&& distance == spec_distance(color, self.colors@[index as int])
                },
            decreases 4 - i,
        {
            let delta = color.distance(self.colors[i]);
            if delta < distance {
                index = i;
                distance = delta;
            }
            i = i + 1;
        }
        proof {
            lemma_closest_prefix_props(self.colors@, color, 4);
        }
        index as u8
    }
}

// --- Endpoint selection ---

/// The scalar brightness key by which the encoder ranks texels.
pub open spec fn spec_key(c: Rgb8) -> int {
    c.r + 2 * c.g + c.b
}

/// The index of the first texel among `s[0..n]` with minimal key.
pub open spec fn spec_min_key_prefix(s: Seq<Rgb8>, n: int) -> int
    decreases n,
{
    if n <= 1 {
        0
    } else {
        let best = spec_min_key_prefix(s, n - 1);
        if spec_key(s[n - 1]) < spec_key(s[best]) {
            n - 1
        } else {
            best
        }
    }
}

/// The index of the first texel among `s[0..n]` with maximal key.
pub open spec fn spec_max_key_prefix(s: Seq<Rgb8>, n: int) -> int
    decreases n,
{
    if n <= 1 {
        0
    } else {
        let best = spec_max_key_prefix(s, n - 1);
        if spec_key(s[n - 1]) > spec_key(s[best]) {
            n - 1
        } else {
            best
        }
    }
}

pub proof fn lemma_min_max_key_prefix_props(s: Seq<Rgb8>, n: int)
    requires
        1 <= n <= s.len(),
    ensures
        0 <= spec_min_key_prefix(s, n) < n,
        0 <= spec_max_key_prefix(s, n) < n,
        forall|j: int|
            0 <= j < n ==> spec_key(s[spec_min_key_prefix(s, n)]) <= spec_key(#[trigger] s[j]),
        forall|j: int|
            0 <= j < n ==> spec_key(s[spec_max_key_prefix(s, n)]) >= spec_key(#[trigger] s[j]),
    decreases n,
{
    if n > 1 {
        lemma_min_max_key_prefix_props(s, n - 1);
    }
}

/// Scan the 16 texels for the one with minimal and the one with maximal
/// key; ties resolve to the first texel seen.
pub fn find_min_max(input: [Rgb8; 16]) -> (r: (Rgb8, Rgb8))
    ensures
        r.0 == input@[spec_min_key_prefix(input@, 16)],
        r.1 == input@[spec_max_key_prefix(input@, 16)],
{
    let mut min: u16 = u16::MAX;
    let mut max: u16 = 0;
    let mut min_color = Rgb8 { r: 255, g: 255, b: 255 };
    let mut max_color = Rgb8 { r: 0, g: 0, b: 0 };

    let mut i: usize = 0;
    while i < 16
        invariant
            i <= 16,
            i == 0 ==> min == u16::MAX && max == 0 && max_color == (Rgb8 { r: 0, g: 0, b: 0 }),
            i >= 1 ==> {
                &&& min_color == input@[spec_min_key_prefix(input@, i as int)]
                &&& min == spec_key(min_color)
                &&& max_color == input@[spec_max_key_prefix(input@, i as int)]
                &&& max == spec_key(max_color)
            },
        decreases 16 - i,
    {
        let color = input[i];
        let val = color.r as u16 + color.g as u16 * 2 + color.b as u16;

        if val < min {
            min = val;
            min_color = color;
        }

        if val > max {
            max = val;
            max_color = color;
        }

        proof {
            if i == 0 && !(spec_key(input@[0]) > 0) {
                // A key of zero forces an all-zero color, so the untouched
                // maximum still names the first texel's value.
                assert(input@[0] == (Rgb8 { r: 0, g: 0, b: 0 }));
            }
        }
        i = i + 1;
    }
    (min_color, max_color)
}

// --- Whole-block encode and decode ---

/// One packed index byte: the 2-bit palette indices of one texel row,
/// MSB-first.
pub open spec fn spec_index_byte(cs: Seq<Rgb8>, texels: Seq<Rgb8>, row: int) -> u8 {
    (64 * spec_closest(cs, texels[4 * row]) + 16 * spec_closest(cs, texels[4 * row + 1]) + 4
        * spec_closest(cs, texels[4 * row + 2]) + spec_closest(cs, texels[4 * row + 3])) as u8
}

/// The palette a BC1 encoder interpolates with: both endpoints go through
/// the 565 quantization round trip before blending.
pub open spec fn spec_encode_palette(mn: Rgb8, mx: Rgb8) -> Seq<Rgb8> {
    spec_table_colors(
        spec_decode_565(spec_encode_565(mn.r, mn.g, mn.b)),
        spec_decode_565(spec_encode_565(mx.r, mx.g, mx.b)),
    )
}

/// The 8 bytes of the BC1 encoding of 16 texels: the two 565 endpoints,
/// little-endian, then 4 packed index bytes, one per texel row.
pub open spec fn spec_bc1_encode(texels: Seq<Rgb8>) -> Seq<u8>
    recommends
        texels.len() == 16,
{
    let mn = texels[spec_min_key_prefix(texels, 16)];
    let mx = texels[spec_max_key_prefix(texels, 16)];
    let c0 = spec_encode_565(mn.r, mn.g, mn.b);
    let c1 = spec_encode_565(mx.r, mx.g, mx.b);
    let cs = spec_encode_palette(mn, mx);
    seq![
        (c0 % 256) as u8,
        (c0 / 256) as u8,
        (c1 % 256) as u8,
        (c1 / 256) as u8,
        spec_index_byte(cs, texels, 0),
        spec_index_byte(cs, texels, 1),
        spec_index_byte(cs, texels, 2),
        spec_index_byte(cs, texels, 3),
    ]
}

/// Encode 16 texels, in row-major 4x4 order, into a single BC1 block.
pub fn encode(input: [Rgb8; 16]) -> (out: Block8)
    ensures
        out@ == spec_bc1_encode(input@),
{
    let (min, max) = find_min_max(input);

    let c0 = encode_565_rgb(min.r, min.g, min.b);
    let c1 = encode_565_rgb(max.r, max.g, max.b);

    let table = Table::new([decode_565_rgb(c0), decode_565_rgb(c1)]);
    let ghost cs = spec_encode_palette(min, max);
    assert(table.colors@ == cs);

    let mut output: [u8; 8] = [0; 8];
    output[0] = (c0 % 256) as u8;
    output[1] = (c0 / 256) as u8;
    output[2] = (c1 % 256) as u8;
    output[3] = (c1 / 256) as u8;

    let mut row: usize = 0;
    while row < 4
        invariant
            row <= 4,
            table.colors@ == cs,
            cs == spec_encode_palette(
                input@[spec_min_key_prefix(input@, 16)],
                input@[spec_max_key_prefix(input@, 16)],
            ),
            output@[0] == spec_bc1_encode(input@)[0],
            output@[1] == spec_bc1_encode(input@)[1],
            output@[2] == spec_bc1_encode(input@)[2],
            output@[3] == spec_bc1_encode(input@)[3],
            forall|r: int| 0 <= r < row ==> output@[4 + r] == spec_index_byte(cs, input@, r),
        decreases 4 - row,
    {
        let f0 = table.closest(input[row * 4]);
        let f1 = table.closest(input[row * 4 + 1]);
        let f2 = table.closest(input[row * 4 + 2]);
        let f3 = table.closest(input[row * 4 + 3]);

        let byte = (f0 << 6u8) | (f1 << 4u8) | (f2 << 2u8) | f3;
        proof {
            assert((f0 << 6u8) | (f1 << 4u8) | (f2 << 2u8) | f3 == 64 * f0 + 16 * f1 + 4 * f2
                + f3) by (bit_vector)
                requires
                    f0 < 4,
                    f1 < 4,
                    f2 < 4,
                    f3 < 4,
            ;
        }
        output[row + 4] = byte;
        row = row + 1;
    }
    proof {
        assert(output@ =~= spec_bc1_encode(input@));
    }
    output
}

/// The 2-bit palette index of texel column `j` within one packed index
/// byte, MSB-first: texel 0 occupies bits 7 and 6.
pub open spec fn spec_index2(byte: u8, j: int) -> u8 {
    if j == 0 {
        (byte & 0xC0) >> 6u8
    } else if j == 1 {
        (byte & 0x30) >> 4u8
    } else if j == 2 {
        (byte & 0x0C) >> 2u8
    } else {
        byte & 0x03
    }
}

/// The 16 texels encoded by a BC1 block: the palette is rebuilt from the
/// two stored 565 endpoints, and each texel is the palette color its
/// packed 2-bit index selects.
pub open spec fn spec_bc1_decode(block: Seq<u8>) -> Seq<Rgb8>
    recommends
        block.len() == 8,
{
    let cs = spec_table_colors(
        spec_decode_565(spec_u16_le(block[0], block[1])),
        spec_decode_565(spec_u16_le(block[2], block[3])),
    );
    Seq::new(16, |p: int| cs[spec_index2(block[4 + p / 4], p % 4) as int])
}

/// Decode a single BC1 block into 16 texels in row-major 4x4 order.
pub fn decode(input: Block8) -> (out: [Rgb8; 16])
    ensures
        out@ == spec_bc1_decode(input@),
{
    let c0 = decode_565_rgb(read_u16_le(input[0], input[1]));
    let c1 = decode_565_rgb(read_u16_le(input[2], input[3]));

    let table = Table::new([c0, c1]);
    let ghost cs = spec_table_colors(c0, c1);

    let mut output: [Rgb8; 16] = [Rgb8 { r: 0, g: 0, b: 0 }; 16];
    let mut row: usize = 0;
    while row < 4
        invariant
            row <= 4,
            table.colors@ == cs,
            cs == spec_table_colors(
                spec_decode_565(spec_u16_le(input@[0], input@[1])),
                spec_decode_565(spec_u16_le(input@[2], input@[3])),
            ),
            forall|p: int|
                0 <= p < 4 * row ==> output@[p] == cs[spec_index2(input@[4 + p / 4], p % 4) as int],
        decreases 4 - row,
    {
        let byte = input[row + 4];

        let f0 = (byte & 0xC0) >> 6u8;
        let f1 = (byte & 0x30) >> 4u8;
        let f2 = (byte & 0x0C) >> 2u8;
        let f3 = byte & 0x03;
        proof {
            assert((byte & 0xC0) >> 6u8 < 4 && (byte & 0x30) >> 4u8 < 4 && (byte & 0x0C) >> 2u8
                < 4 && byte & 0x03 < 4) by (bit_vector);
        }

        output[row * 4] = table.get(f0);
        output[row * 4 + 1] = table.get(f1);
        output[row * 4 + 2] = table.get(f2);
        output[row * 4 + 3] = table.get(f3);
        row = row + 1;
    }
    proof {
        assert(output@ =~= spec_bc1_decode(input@));
    }
    output
}

// --- The format as a streaming-layer capability ---

/// The BC1 format, as the streaming layer sees it: 8-byte blocks of 4x4
/// texels.
pub struct Bc1;

impl crate::Sealed for Bc1 {
    open spec fn spec_block_size() -> usize {
        8
    }

    open spec fn spec_num_pixels() -> usize {
        4
    }

    fn block_size() -> usize {
        8
    }

    fn num_pixels() -> usize {
        4
    }
}

impl crate::Decoder for Bc1 {
    /// BC1 stores no alpha: every decoded texel is fully opaque.
    open spec fn spec_decoded(block: Seq<u8>) -> Seq<Rgba8> {
        Seq::new(
            16,
            |p: int|
                {
                    let c = spec_bc1_decode(block)[p];
                    Rgba8 { r: c.r, g: c.g, b: c.b, a: 255 }
                },
        )
    }

    fn decode_block(block: &[u8]) -> (out: Vec<Rgba8>) {
        let mut fixed: [u8; 8] = [0; 8];
        let mut i: usize = 0;
        while i < 8
            invariant
                i <= 8,
                block@.len() == 8,
                forall|j: int| 0 <= j < i ==> fixed@[j] == block@[j],
            decreases 8 - i,
        {
            fixed[i] = block[i];
            i = i + 1;
        }
        proof {
            assert(fixed@ =~= block@);
        }
        let texels = decode(fixed);
        let mut out: Vec<Rgba8> = Vec::new();
        let mut i: usize = 0;
        while i < 16
            invariant
                i <= 16,
                texels@ == spec_bc1_decode(block@),
                out@.len() == i,
                forall|p: int| 0 <= p < i ==> out@[p] == Self::spec_decoded(block@)[p],
            decreases 16 - i,
        {
            let c = texels[i];
            out.push(Rgba8 { r: c.r, g: c.g, b: c.b, a: 255 });
            i = i + 1;
        }
        proof {
            assert(out@ =~= Self::spec_decoded(block@));
        }
        out
    }
}

impl crate::Encoder for Bc1 {
    /// BC1 encodes the RGB projection; the alpha channel is dropped.
    open spec fn spec_encoded(texels: Seq<Rgba8>) -> Seq<u8> {
        spec_bc1_encode(crate::spec_rgb_seq(texels))
    }

    fn encode_block(texels: &[Rgba8]) -> (out: Vec<u8>) {
        let mut rgb: [Rgb8; 16] = [Rgb8 { r: 0, g: 0, b: 0 }; 16];
        let mut i: usize = 0;
        while i < 16
            invariant
                i <= 16,
                texels@.len() == 16,
                forall|j: int| 0 <= j < i ==> rgb@[j] == texels@[j].spec_rgb(),
            decreases 16 - i,
        {
            let c = texels[i];
            rgb[i] = Rgb8 { r: c.r, g: c.g, b: c.b };
            i = i + 1;
        }
        proof {
            assert(rgb@ =~= crate::spec_rgb_seq(texels@));
        }
        let block = encode(rgb);
        let mut out: Vec<u8> = Vec::new();
        let mut i: usize = 0;
        while i < 8
            invariant
                i <= 8,
                block@ == Self::spec_encoded(texels@),
                out@.len() == i,
                forall|j: int| 0 <= j < i ==> out@[j] == block@[j],
            decreases 8 - i,
        {
            out.push(block[i]);
            i = i + 1;
        }
        proof {
            assert(out@ =~= Self::spec_encoded(texels@));
        }
        out
    }
}

// --- Laws ---

/// A color equal to palette entry `k` is mapped back to index `k` by the
/// closest-color search, provided no earlier entry holds the same color
/// (an earlier duplicate wins the tie instead).
pub proof fn lemma_closest_recovers_entry(t: Table, k: int)
    requires
        0 <= k < 4,
        forall|j: int| 0 <= j < k ==> t.colors@[j] != t.colors@[k],
    ensures
        spec_closest(t.colors@, t.colors@[k]) == k,
{
    let cs = t.colors@;
    let c = cs[k];
    assert forall|j: int| 0 <= j < 4 implies spec_distance(c, #[trigger] cs[j]) >= 0 && (
    spec_distance(c, cs[j]) == 0 <==> cs[j] == c) by {
        crate::lemma_distance_zero_iff_eq(c, cs[j]);
    }
    lemma_closest_prefix_props(cs, c, 4);
    let best = spec_closest(cs, c);
    assert(spec_distance(c, cs[best]) <= spec_distance(c, cs[k]));
    assert(cs[best] == c);
    if best < k {
        assert(cs[best] != cs[k]);
        assert(false);
    }
    if best > k {
        assert(spec_distance(c, cs[k]) > spec_distance(c, cs[best]));
        assert(false);
    }
}

/// Encoding a uniform block and decoding it reproduces each texel within
/// the 565 quantization step: at most 3 lost on red and blue, at most 1 on
/// green. The bound asks each component to stay below 128: the stored
/// fields hold the component divided by 4 (or 2), and a larger component
/// overflows its 5- (or 6-) bit field and wraps far away.
pub proof fn lemma_uniform_roundtrip_error(texels: Seq<Rgb8>, c: Rgb8)
    requires
        texels.len() == 16,
        forall|i: int| 0 <= i < 16 ==> texels[i] == c,
        c.r < 128,
        c.g < 128,
        c.b < 128,
    ensures
        forall|p: int|
            0 <= p < 16 ==> {
                let d = #[trigger] spec_bc1_decode(spec_bc1_encode(texels))[p];
                &&& c.r - 3 <= d.r <= c.r
                &&& c.g - 1 <= d.g <= c.g
                &&& c.b - 3 <= d.b <= c.b
            },
{
    lemma_min_max_key_prefix_props(texels, 16);
    let mn = texels[spec_min_key_prefix(texels, 16)];
    let mx = texels[spec_max_key_prefix(texels, 16)];
    assert(mn == c && mx == c);

    let c0 = spec_encode_565(c.r, c.g, c.b);
    let r4 = (c.r / 4) as u16;
    let g2 = (c.g / 2) as u16;
    let b4 = (c.b / 4) as u16;
    assert(r4 < 32 && g2 < 64 && b4 < 32);
    let e = spec_decode_565(c0);
    assert((((r4 << 11u16) | (g2 << 5u16) | b4) >> 11u16) == r4 && ((((r4 << 11u16) | (g2
        << 5u16) | b4) >> 5u16) & 0x3F) == g2 && (((r4 << 11u16) | (g2 << 5u16) | b4) & 0x1F)
        == b4) by (bit_vector)
        requires
            r4 < 32,
            g2 < 64,
            b4 < 32,
    ;
    assert(e == (Rgb8 { r: (r4 * 4) as u8, g: (g2 * 2) as u8, b: (b4 * 4) as u8 }));

    let enc = spec_bc1_encode(texels);
    assert(spec_u16_le(enc[0], enc[1]) == c0 && spec_u16_le(enc[2], enc[3]) == c0);

    let cs = spec_table_colors(e, e);
    assert(spec_mix(e.r, e.r) == e.r && spec_mix(e.g, e.g) == e.g && spec_mix(e.b, e.b) == e.b);
    assert(forall|j: int| 0 <= j < 4 ==> cs[j] == e);

    // Every palette entry is the same color, so the first index always
    // wins the closest-color search, and every packed index byte is zero.
    assert forall|q: Rgb8| spec_closest(cs, q) == 0 by {
        lemma_closest_prefix_props(cs, q, 4);
        let best = spec_closest(cs, q);
        if best > 0 {
            assert(spec_distance(q, cs[0]) > spec_distance(q, cs[best]));
            assert(cs[0] == cs[best]);
            assert(false);
        }
    }
    assert(forall|row: int| 0 <= row < 4 ==> spec_index_byte(cs, texels, row) == 0);

    assert((0u8 & 0xC0) >> 6u8 == 0 && (0u8 & 0x30) >> 4u8 == 0 && (0u8 & 0x0C) >> 2u8 == 0
        && 0u8 & 0x03 == 0) by (bit_vector);

    let dec = spec_bc1_decode(enc);
    assert forall|p: int| 0 <= p < 16 implies #[trigger] dec[p] == e by {
        assert(enc[4 + p / 4] == 0);
        assert(spec_index2(0, p % 4) == 0);
    }
    assert(c.r - 3 <= r4 * 4 <= c.r && c.g - 1 <= g2 * 2 <= c.g && c.b - 3 <= b4 * 4 <= c.b);
}

} // verus!
