use bctex::bc1::{decode, encode, decode_565_rgb, encode_565_rgb, find_min_max, Table};
use bctex::Rgb8;

fn rgb(r: u8, g: u8, b: u8) -> Rgb8 {
    Rgb8 { r, g, b }
}

#[test]
fn bc1_encode() {
    let input = [
        Rgb8 { r: 0, g: 1, b: 2 },
        Rgb8 { r: 3, g: 4, b: 5 },
        Rgb8 { r: 6, g: 7, b: 8 },
        Rgb8 { r: 9, g: 11, b: 12 },
        Rgb8 { r: 0, g: 1, b: 2 },
        Rgb8 { r: 0, g: 1, b: 2 },
        Rgb8 { r: 3, g: 4, b: 5 },
        Rgb8 { r: 6, g: 7, b: 8 },
        Rgb8 { r: 9, g: 11, b: 12 },
        Rgb8 { r: 3, g: 4, b: 5 },
        Rgb8 { r: 6, g: 7, b: 8 },
        Rgb8 { r: 9, g: 11, b: 12 },
        Rgb8 { r: 0, g: 1, b: 2 },
        Rgb8 { r: 3, g: 4, b: 5 },
        Rgb8 { r: 6, g: 7, b: 8 },
        Rgb8 { r: 9, g: 11, b: 12 },
    ];

    let block = encode(input);
    assert_eq!(
        block,
        [
            0b0000_0000,
            0b0000_0000,
            0b1010_0011,
            0b0001_0000,
            0b0010_1101,
            0b0000_1011,
            0b0110_1101,
            0b0010_1101,
        ]
    );
}

#[test]
fn bc1_decode() {
    let input = [
        0b0000_0000,
        0b0000_0000,
        0b1010_0011,
        0b0001_0000,
        0b0010_1101,
        0b0000_1011,
        0b0110_1101,
        0b0010_1101,
    ];

    let output = decode(input);
    assert_eq!(
        output,
        [
            Rgb8 { r: 0, g: 0, b: 0 },
            Rgb8 { r: 2, g: 3, b: 4 },
            Rgb8 { r: 5, g: 6, b: 8 },
            Rgb8 { r: 8, g: 10, b: 12 },
            Rgb8 { r: 0, g: 0, b: 0 },
            Rgb8 { r: 0, g: 0, b: 0 },
            Rgb8 { r: 2, g: 3, b: 4 },
            Rgb8 { r: 5, g: 6, b: 8 },
            Rgb8 { r: 8, g: 10, b: 12 },
            Rgb8 { r: 2, g: 3, b: 4 },
            Rgb8 { r: 5, g: 6, b: 8 },
            Rgb8 { r: 8, g: 10, b: 12 },
            Rgb8 { r: 0, g: 0, b: 0 },
            Rgb8 { r: 2, g: 3, b: 4 },
            Rgb8 { r: 5, g: 6, b: 8 },
            Rgb8 { r: 8, g: 10, b: 12 },
        ]
    );
}

#[test]
fn table_from_extreme_endpoints() {
    // Black and white endpoints, after their 565 round trip. The two
    // interpolated entries are the integer-truncated 2/3:1/3 and 1/3:2/3
    // blends.
    let c0 = decode_565_rgb(encode_565_rgb(0, 0, 0));
    let c1 = decode_565_rgb(encode_565_rgb(255, 255, 255));
    assert_eq!(c0, rgb(0, 0, 0));
    assert_eq!(c1, rgb(124, 126, 124));

    let table = Table::new([c0, c1]);
    assert_eq!(table.colors[0], rgb(0, 0, 0));
    assert_eq!(table.colors[1], rgb(124, 126, 124));
    assert_eq!(table.colors[2], rgb(41, 42, 41));
    assert_eq!(table.colors[3], rgb(82, 84, 82));
}

#[test]
fn closest_recovers_each_entry() {
    let table = Table::new([rgb(0, 0, 0), rgb(124, 126, 124)]);
    for k in 0..4u8 {
        assert_eq!(table.closest(table.get(k)), k);
    }
}

#[test]
fn closest_breaks_ties_toward_lower_index() {
    // Equal endpoints collapse the whole palette onto one color: every
    // query answers with index 0.
    let table = Table::new([rgb(50, 60, 70), rgb(50, 60, 70)]);
    assert_eq!(table.closest(rgb(50, 60, 70)), 0);
    assert_eq!(table.closest(rgb(0, 0, 0)), 0);
}

#[test]
fn table_get_returns_entry() {
    let table = Table::new([rgb(10, 20, 30), rgb(40, 50, 60)]);
    assert_eq!(table.get(0), rgb(10, 20, 30));
    assert_eq!(table.get(1), rgb(40, 50, 60));
}

#[test]
fn find_min_max_orders_by_key() {
    let mut input = [rgb(10, 10, 10); 16];
    input[3] = rgb(0, 0, 1);
    input[7] = rgb(200, 200, 200);
    let (min, max) = find_min_max(input);
    assert_eq!(min, rgb(0, 0, 1));
    assert_eq!(max, rgb(200, 200, 200));
}

#[test]
fn find_min_max_first_seen_wins() {
    // All texels share one key: the first texel is both extremes.
    let input = [rgb(10, 0, 0); 16];
    let (min, max) = find_min_max(input);
    assert_eq!(min, rgb(10, 0, 0));
    assert_eq!(max, rgb(10, 0, 0));
}

#[test]
fn uniform_block_roundtrip_error_is_bounded() {
    // Lossy by design: the round trip may not be exact, but a uniform
    // block with components below 128 loses at most the 565 quantization
    // step per channel (3 for red and blue, 1 for green).
    let c = rgb(100, 50, 25);
    let decoded = decode(encode([c; 16]));
    for d in decoded.iter() {
        assert!(c.r - 3 <= d.r && d.r <= c.r);
        assert!(c.g - 1 <= d.g && d.g <= c.g);
        assert!(c.b - 3 <= d.b && d.b <= c.b);
    }
    assert_eq!(decoded[0], rgb(100, 50, 24));
}

#[test]
fn encode_all_equal_texels() {
    let block = encode([rgb(10, 0, 0); 16]);
    assert_eq!(block, [0x00, 0x10, 0x00, 0x10, 0, 0, 0, 0]);
}

#[test]
fn encode_565_packs_fields() {
    assert_eq!(encode_565_rgb(9, 11, 12), 0x10A3);
    assert_eq!(encode_565_rgb(0, 0, 0), 0);
}

#[test]
fn decode_565_expands_fields() {
    assert_eq!(decode_565_rgb(0x10A3), rgb(8, 10, 12));
    assert_eq!(decode_565_rgb(0xFFFF), rgb(124, 126, 124));
}
