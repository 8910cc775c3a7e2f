use bctex::bc7::{decode, get_subset_index, interpolate, Bc7Error, Mode};
use bctex::Rgba8;

fn rgba(r: u8, g: u8, b: u8, a: u8) -> Rgba8 {
    Rgba8 { r, g, b, a }
}

#[test]
fn invalid_mode_decodes_to_zero_block() {
    // An all-zero mode header is the format's defined fallback, not an
    // error: the block decodes to 16 all-zero texels.
    let out = decode([0; 16]).unwrap();
    assert_eq!(out, [rgba(0, 0, 0, 0); 16]);
}

#[test]
fn unsupported_mode_is_refused() {
    // First bit clear, second bit set: Mode 1, which the decoder does
    // not cover. The signal is distinct from the invalid-header fallback.
    let mut block = [0; 16];
    block[0] = 0b0100_0000;
    assert_eq!(decode(block), Err(Bc7Error::Unsupported(Mode::Mode1)));

    block[0] = 0b0000_0001;
    assert_eq!(decode(block), Err(Bc7Error::Unsupported(Mode::Mode7)));
}

#[test]
fn mode0_worked_example() {
    // A Mode 0 block built by hand: partition 0, endpoint 0 with raw
    // RGB (15, 0, 8) and P-bit 1, endpoint 1 with raw RGB (3, 5, 1) and
    // P-bit 0, remaining endpoints zero. The P-bit expansion gives
    // endpoint 0 = (255, 8, 140) and endpoint 1 = (49, 82, 16); texel
    // (0, 0) is at an anchor position, and its 2-bit index 2 selects
    // weight 18: e.g. red = (46 * 255 + 18 * 49) >> 6 = 197.
    let block = [135, 152, 0, 0, 40, 0, 4, 8, 0, 4, 17, 11, 8, 16, 0, 1];
    let out = decode(block).unwrap();
    assert_eq!(out[0], rgba(197, 28, 105, 255));

    // Spot checks further into the raster order: texel 1 reads a 3-bit
    // index, and texel 5 sits in the same subset as texel 0.
    assert_eq!(out[1], rgba(226, 18, 122, 255));
    assert_eq!(out[4], rgba(168, 39, 87, 255));
    assert_eq!(out[5], rgba(255, 8, 140, 255));
    // Texels of subsets 1 and 2 interpolate all-zero endpoints.
    assert_eq!(out[2], rgba(0, 0, 0, 255));
    assert_eq!(out[15], rgba(0, 0, 0, 255));
}

#[test]
fn interpolate_weight_tables() {
    // 3-bit index 1 selects weight 9.
    assert_eq!(interpolate(0, 255, 1, 3), 35);
    // The 2-bit table adds its rounding term of 32.
    assert_eq!(interpolate(10, 20, 0, 2), 10);
    assert_eq!(interpolate(10, 20, 3, 2), 20);
    // Index 0 and full-weight index reproduce the endpoints exactly.
    assert_eq!(interpolate(200, 17, 0, 4), 200);
    assert_eq!(interpolate(200, 17, 15, 4), 17);
}

#[test]
fn subset_index_lookup() {
    // Partition 0 under 3 subsets assigns position 9 (column 1, row 2)
    // to subset 2.
    assert_eq!(get_subset_index(3, 0, 1, 2), 2);
    // Partition 1 under 2 subsets assigns position 3 to subset 1.
    assert_eq!(get_subset_index(2, 1, 3, 0), 1);
}
