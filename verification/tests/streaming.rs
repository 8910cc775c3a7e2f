use bctex::bc1::Bc1;
use bctex::bc2::Bc2;
use bctex::stream::{decode_bc1_stream, StreamDecoder, StreamEncoder};
use bctex::Rgba8;

fn rgba(r: u8, g: u8, b: u8, a: u8) -> Rgba8 {
    Rgba8 { r, g, b, a }
}

const BC1_BLOCK: [u8; 8] = [
    0b0000_0000,
    0b0000_0000,
    0b1010_0011,
    0b0001_0000,
    0b0010_1101,
    0b0000_1011,
    0b0110_1101,
    0b0010_1101,
];

fn bc1_block_pixels() -> [Rgba8; 16] {
    let texels = bctex::bc1::decode(BC1_BLOCK);
    let mut out = [rgba(0, 0, 0, 0); 16];
    for i in 0..16 {
        out[i] = rgba(texels[i].r, texels[i].g, texels[i].b, 255);
    }
    out
}

#[test]
fn bc1_stream_single_block() {
    let out = decode_bc1_stream(&BC1_BLOCK, 4, 4);
    assert_eq!(out, bc1_block_pixels().to_vec());
}

#[test]
fn bc1_stream_two_blocks_side_by_side() {
    // An 8x4 surface: the left tile from the reference block, the right
    // tile from an all-zero block, which decodes to black.
    let mut buf = [0u8; 16];
    buf[..8].copy_from_slice(&BC1_BLOCK);
    let out = decode_bc1_stream(&buf, 8, 4);
    assert_eq!(out.len(), 32);
    let left = bc1_block_pixels();
    for y in 0..4 {
        for x in 0..8 {
            let expected = if x < 4 {
                left[y * 4 + x]
            } else {
                rgba(0, 0, 0, 255)
            };
            assert_eq!(out[y * 8 + x], expected);
        }
    }
}

#[test]
fn bc1_stream_encode_matches_block_encode() {
    let rgb_input = [
        (0, 1, 2),
        (3, 4, 5),
        (6, 7, 8),
        (9, 11, 12),
        (0, 1, 2),
        (0, 1, 2),
        (3, 4, 5),
        (6, 7, 8),
        (9, 11, 12),
        (3, 4, 5),
        (6, 7, 8),
        (9, 11, 12),
        (0, 1, 2),
        (3, 4, 5),
        (6, 7, 8),
        (9, 11, 12),
    ];
    let mut pixels = [rgba(0, 0, 0, 0); 16];
    for (i, &(r, g, b)) in rgb_input.iter().enumerate() {
        pixels[i] = rgba(r, g, b, 255);
    }
    let mut encoder = StreamEncoder::new(Bc1);
    let out = encoder.encode(&pixels, 4, 4);
    assert_eq!(
        out,
        vec![0x00, 0x00, 0xA3, 0x10, 0x2D, 0x0B, 0x6D, 0x2D]
    );
}

#[test]
fn bc1_stream_encode_two_tiles() {
    // An 8x4 surface: the right tile is uniform, so its block stores the
    // same 565 endpoint twice and all indices zero.
    let mut pixels = [rgba(10, 0, 0, 255); 32];
    for p in pixels.iter_mut() {
        *p = rgba(10, 0, 0, 255);
    }
    let mut encoder = StreamEncoder::new(Bc1);
    let out = encoder.encode(&pixels, 8, 4);
    assert_eq!(out.len(), 16);
    assert_eq!(&out[..8], &[0x00, 0x10, 0x00, 0x10, 0, 0, 0, 0]);
    assert_eq!(&out[8..], &[0x00, 0x10, 0x00, 0x10, 0, 0, 0, 0]);
}

#[test]
fn bc2_stream_roundtrips_alpha_grid() {
    let mut pixels = [rgba(0, 0, 0, 0); 16];
    for (i, p) in pixels.iter_mut().enumerate() {
        *p = rgba(0, 0, 0, (i as u8) * 16);
    }
    let mut encoder = StreamEncoder::new(Bc2);
    let buf = encoder.encode(&pixels, 4, 4);
    assert_eq!(buf.len(), 16);

    let mut decoder = StreamDecoder::new(Bc2);
    let out = decoder.decode(&buf, 4, 4);
    for (i, t) in out.iter().enumerate() {
        assert_eq!(t.a, (i as u8) * 16);
    }
}
