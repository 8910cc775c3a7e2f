//! The streaming layer: walks a linear byte buffer block by block and
//! stitches the decoded texels into a row-major pixel surface, or cuts a
//! surface into 4x4 tiles and concatenates their encoded blocks. Both
//! directions work through the block-format capability traits, so any
//! codec of this crate plugs in.

use crate::bc1::Bc1;
use crate::{Decoder, Encoder, Rgba8};
use vstd::arithmetic::div_mod::lemma_fundamental_div_mod_converse;
use vstd::prelude::*;

verus! {

/// The bytes of the block covering pixel `(x, y)` of a surface `width`
/// pixels wide: blocks are stored in row-major tile order, `bs` bytes
/// each.
pub open spec fn spec_block_at(buf: Seq<u8>, bs: int, width: int, x: int, y: int) -> Seq<u8> {
    let bn = (y / 4) * (width / 4) + x / 4;
    buf.subrange(bn * bs, (bn + 1) * bs)
}

/// Pixel `(x, y)` of the surface a block stream decodes to with codec
/// `D`: texel `(y%4)*4 + (x%4)` of the block covering `(x, y)`.
pub open spec fn spec_stream_pixel<D: Decoder>(buf: Seq<u8>, width: int, x: int, y: int) -> Rgba8 {
    D::spec_decoded(spec_block_at(buf, D::spec_block_size() as int, width, x, y))[(y % 4) * 4 + (x
        % 4)]
}

/// The 4x4 tile of pixels that block number `bn` covers, in row-major
/// tile order.
pub open spec fn spec_tile(pixels: Seq<Rgba8>, width: int, bn: int) -> Seq<Rgba8> {
    let bx = bn % (width / 4);
    let by = bn / (width / 4);
    Seq::new(16, |i: int| pixels[(by * 4 + i / 4) * width + bx * 4 + i % 4])
}

/// Arithmetic of the block walk: the block covering a pixel lies within
/// the buffer, and the texel index lies within the tile.
proof fn lemma_tile_arithmetic(w: int, h: int, x: int, y: int, bs: int)
    requires
        w % 4 == 0,
        h % 4 == 0,
        0 <= x < w,
        0 <= y < h,
        0 < bs,
    ensures
        0 <= x / 4 < w / 4,
        0 <= y / 4 < h / 4,
        0 <= (y / 4) * (w / 4) + x / 4 < (w / 4) * (h / 4),
        ((y / 4) * (w / 4) + x / 4 + 1) * bs <= (w / 4) * (h / 4) * bs,
        0 <= (y % 4) * 4 + (x % 4) < 16,
{
    assert(0 <= x / 4 < w / 4 && 0 <= y / 4 < h / 4 && 0 <= x % 4 < 4 && 0 <= y % 4 < 4)
        by (nonlinear_arith)
        requires
            w % 4 == 0,
            h % 4 == 0,
            0 <= x < w,
            0 <= y < h,
    ;
    let bn = (y / 4) * (w / 4) + x / 4;
    assert(0 <= bn < (w / 4) * (h / 4)) by (nonlinear_arith)
        requires
            0 <= x / 4 < w / 4,
            0 <= y / 4 < h / 4,
            bn == (y / 4) * (w / 4) + x / 4,
    ;
    assert((bn + 1) * bs <= (w / 4) * (h / 4) * bs) by (nonlinear_arith)
        requires
            bn + 1 <= (w / 4) * (h / 4),
            0 < bs,
    ;
}

/// Walks a byte buffer block by block with decoder `D` and places each
/// decoded texel at its pixel position.
pub struct StreamDecoder<D> {
    _decoder: D,
}

impl<D> StreamDecoder<D> {
    pub fn new(decoder: D) -> Self {
        Self { _decoder: decoder }
    }

    /// Decode a buffer of concatenated blocks into a row-major surface of
    /// `width * height` pixels. Both dimensions must be exact multiples
    /// of the tile dimension, and the buffer must hold exactly one block
    /// per tile.
    pub fn decode(&mut self, buf: &[u8], width: u32, height: u32) -> (out: Vec<Rgba8>) where
        D: Decoder

        requires
            D::spec_num_pixels() == 4,
            width as int % 4 == 0,
            height as int % 4 == 0,
            buf@.len() == (width as int / 4) * (height as int / 4) * D::spec_block_size(),
            width as int * height as int <= usize::MAX as int,
        ensures
            out@.len() == width as int * height as int,
            forall|x: int, y: int|
                0 <= x < width && 0 <= y < height ==> out@[y * width + x] == spec_stream_pixel::<
                    D,
                >(buf@, width as int, x, y),
    {
        let w = width as usize;
        let h = height as usize;
        let bs = D::block_size();
        let buflen = buf.len();
        let total = w * h;

        let mut out: Vec<Rgba8> = Vec::new();
        let mut p: usize = 0;
        while p < total
            invariant
                w == width as int,
                h == height as int,
                total == w * h,
                w % 4 == 0,
                h % 4 == 0,
                bs == D::spec_block_size(),
                0 < bs,
                D::spec_num_pixels() == 4,
                buf@.len() == (w as int / 4) * (h as int / 4) * bs,
                buflen == buf@.len(),
                p <= total,
                out@.len() == p,
                forall|q: int|
                    0 <= q < p ==> out@[q] == spec_stream_pixel::<D>(
                        buf@,
                        w as int,
                        q % (w as int),
                        q / (w as int),
                    ),
            decreases total - p,
        {
            proof {
                assert(0 < w && 0 < h) by (nonlinear_arith)
                    requires
                        0 <= p < w * h,
                ;
                assert(0 <= p % w < w && 0 <= p / w < h) by (nonlinear_arith)
                    requires
                        0 < w,
                        0 <= p < w * h,
                ;
                lemma_tile_arithmetic(
                    w as int,
                    h as int,
                    p as int % w as int,
                    p as int / w as int,
                    bs as int,
                );
                let xg = p as int % (w as int);
                let yg = p as int / (w as int);
                let bng = (yg / 4) * ((w as int) / 4) + xg / 4;
                assert(0 <= bng * bs && (bng + 1) * bs == bng * bs + bs && (bng + 1) * bs
                    <= buf@.len() && bng <= buf@.len() && 0 <= (yg / 4) * ((w as int) / 4)
                    <= bng) by (nonlinear_arith)
                    requires
                        0 <= bng,
                        0 <= xg / 4,
                        0 <= yg / 4,
                        bng == (yg / 4) * ((w as int) / 4) + xg / 4,
                        bng + 1 <= ((w as int) / 4) * ((h as int) / 4),
                        0 < bs,
                        buf@.len() == ((w as int) / 4) * ((h as int) / 4) * bs,
                ;
            }
            let x = p % w;
            let y = p / w;
            let bn = (y / 4) * (w / 4) + x / 4;
            let start = bn * bs;

            let mut block: Vec<u8> = Vec::new();
            let mut i: usize = 0;
            while i < bs
                invariant
                    i <= bs,
                    start + bs <= buf@.len(),
                    buflen == buf@.len(),
                    block@.len() == i,
                    forall|j: int| 0 <= j < i ==> block@[j] == buf@[start + j],
                decreases bs - i,
            {
                block.push(buf[start + i]);
                i = i + 1;
            }
            proof {
                assert(block@ =~= buf@.subrange(start as int, start as int + bs as int));
            }

            let texels = D::decode_block(block.as_slice());
            let t = texels[(y % 4) * 4 + (x % 4)];
            out.push(t);
            p = p + 1;
        }

        proof {
            assert forall|x: int, y: int| 0 <= x < width && 0 <= y < height implies out@[y * width
                + x] == spec_stream_pixel::<D>(buf@, width as int, x, y) by {
                let q = y * (w as int) + x;
                assert(0 <= q < w * h) by (nonlinear_arith)
                    requires
                        0 <= x < w,
                        0 <= y < h,
                        q == y * (w as int) + x,
                ;
                lemma_fundamental_div_mod_converse(q, w as int, y, x);
            }
        }
        out
    }
}

/// Cuts a row-major surface into 4x4 tiles and concatenates the blocks
/// encoder `T` produces for them.
pub struct StreamEncoder<T> {
    _encoder: T,
}

impl<T> StreamEncoder<T> {
    pub fn new(encoder: T) -> Self {
        Self { _encoder: encoder }
    }

    /// Encode a row-major surface of `width * height` pixels into a
    /// buffer of concatenated blocks, one per 4x4 tile, in row-major
    /// tile order.
    pub fn encode(&mut self, pixels: &[Rgba8], width: u32, height: u32) -> (out: Vec<u8>) where
        T: Encoder

        requires
            T::spec_num_pixels() == 4,
            width as int % 4 == 0,
            height as int % 4 == 0,
            pixels@.len() == width as int * height as int,
            (width as int / 4) * (height as int / 4) * T::spec_block_size() <= usize::MAX as int,
        ensures
            out@.len() == (width as int / 4) * (height as int / 4) * T::spec_block_size(),
            forall|bn: int|
                0 <= bn < (width as int / 4) * (height as int / 4) ==> out@.subrange(
                    bn * T::spec_block_size(),
                    (bn + 1) * T::spec_block_size(),
                ) == T::spec_encoded(spec_tile(pixels@, width as int, bn)),
    {
        let w = width as usize;
        let h = height as usize;
        let bs = T::block_size();
        let n_pixels = pixels.len();
        let wb = w / 4;
        let hb = h / 4;
        proof {
            assert(wb * hb * bs >= wb * hb && wb * hb >= 0) by (nonlinear_arith)
                requires
                    0 < bs,
                    0 <= wb,
                    0 <= hb,
            ;
        }
        let nblocks = wb * hb;

        let mut out: Vec<u8> = Vec::new();
        let mut bn: usize = 0;
        while bn < nblocks
            invariant
                w == width as int,
                h == height as int,
                w % 4 == 0,
                h % 4 == 0,
                wb == w / 4,
                hb == h / 4,
                nblocks == wb * hb,
                bs == T::spec_block_size(),
                0 < bs,
                T::spec_num_pixels() == 4,
                pixels@.len() == w * h,
                n_pixels == pixels@.len(),
                nblocks * bs <= usize::MAX as int,
                bn <= nblocks,
                out@.len() == bn * bs,
                forall|b: int|
                    0 <= b < bn ==> out@.subrange(b * (bs as int), (b + 1) * (bs as int))
                        == T::spec_encoded(spec_tile(pixels@, w as int, b)),
            decreases nblocks - bn,
        {
            proof {
                assert(0 < wb && 0 < hb) by (nonlinear_arith)
                    requires
                        0 <= bn < wb * hb,
                ;
                assert(0 <= bn % wb < wb && 0 <= bn / wb < hb) by (nonlinear_arith)
                    requires
                        0 < wb,
                        0 <= bn < wb * hb,
                ;
                assert((bn + 1) * bs <= nblocks * bs && bn * bs <= nblocks * bs)
                    by (nonlinear_arith)
                    requires
                        bn + 1 <= nblocks,
                        0 < bs,
                ;
            }
            let bx = bn % wb;
            let by = bn / wb;

            let mut tile: Vec<Rgba8> = Vec::new();
            let mut i: usize = 0;
            while i < 16
                invariant
                    i <= 16,
                    w % 4 == 0,
                    h % 4 == 0,
                    wb == w / 4,
                    hb == h / 4,
                    0 <= bx < wb,
                    0 <= by < hb,
                    pixels@.len() == w * h,
                    n_pixels == pixels@.len(),
                    tile@.len() == i,
                    forall|j: int|
                        0 <= j < i ==> tile@[j] == pixels@[(by * 4 + j / 4) * w + bx * 4 + j % 4],
                decreases 16 - i,
            {
                proof {
                    assert(0 <= bx * 4 + (i % 4) < w && 0 <= by * 4 + (i / 4) < h && ((by * 4 + (i
                        / 4)) * w + bx * 4 + (i % 4)) < w * h && 0 <= (by * 4 + (i / 4)) * w)
                        by (nonlinear_arith)
                        requires
                            0 <= i < 16,
                            0 <= bx < w / 4,
                            0 <= by < h / 4,
                            w % 4 == 0,
                            h % 4 == 0,
                            wb == w / 4,
                            hb == h / 4,
                    ;
                }
                let px = bx * 4 + i % 4;
                let py = by * 4 + i / 4;
                tile.push(pixels[py * w + px]);
                i = i + 1;
            }
            proof {
                assert(tile@ =~= spec_tile(pixels@, w as int, bn as int));
            }

            let block = T::encode_block(tile.as_slice());

            let ghost out_old = out@;
            let mut i: usize = 0;
            while i < bs
                invariant
                    i <= bs,
                    block@.len() == bs,
                    out@ == out_old + block@.subrange(0, i as int),
                decreases bs - i,
            {
                out.push(block[i]);
                i = i + 1;
            }
            proof {
                assert(out@ =~= out_old + block@);
                assert((bn + 1) * (bs as int) == bn * (bs as int) + bs) by (nonlinear_arith);
                assert forall|b: int|
                    0 <= b < bn + 1 implies out@.subrange(b * (bs as int), (b + 1) * (bs as int))
                    == T::spec_encoded(spec_tile(pixels@, w as int, b)) by {
                    if b < bn {
                        assert((b + 1) * (bs as int) <= bn * (bs as int) && 0 <= b * (bs as int)
                            && (b + 1) * (bs as int) == b * (bs as int) + bs)
                            by (nonlinear_arith)
                            requires
                                0 <= b,
                                b + 1 <= bn,
                                0 < bs,
                        ;
                        assert(out@.subrange(b * (bs as int), (b + 1) * (bs as int))
                            =~= out_old.subrange(b * (bs as int), (b + 1) * (bs as int)));
                    } else {
                        assert(b == bn && 0 <= b * (bs as int));
                        assert(out@.subrange(b * (bs as int), (b + 1) * (bs as int)) =~= block@);
                    }
                }
            }
            bn = bn + 1;
        }
        out
    }
}

/// Decode a stream of BC1 blocks into a row-major RGBA surface.
pub fn decode_bc1_stream(buf: &[u8], width: u32, height: u32) -> (out: Vec<Rgba8>)
    requires
        width as int % 4 == 0,
        height as int % 4 == 0,
        buf@.len() == (width as int / 4) * (height as int / 4) * 8,
        width as int * height as int <= usize::MAX as int,
    ensures
        out@.len() == width as int * height as int,
        forall|x: int, y: int|
            0 <= x < width && 0 <= y < height ==> out@[y * width + x] == spec_stream_pixel::<Bc1>(
                buf@,
                width as int,
                x,
                y,
            ),
{
    let mut decoder = StreamDecoder::new(Bc1);
    decoder.decode(buf, width, height)
}

} // verus!
