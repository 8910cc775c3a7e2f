use bctex::{Rgb8, Rgba8};

#[test]
fn distance_zero() {
    let lhs = Rgb8 { r: 0, g: 0, b: 0 };
    let rhs = Rgb8 { r: 0, g: 0, b: 0 };

    assert_eq!(lhs.distance(rhs), 0);
}

#[test]
fn distance_min_max() {
    let lhs = Rgb8 { r: 0, g: 0, b: 0 };
    let rhs = Rgb8 {
        r: 255,
        g: 255,
        b: 255,
    };

    assert_eq!(lhs.distance(rhs), (255 * 255) * 3);
}

#[test]
fn rgba_from_array() {
    let c = Rgba8::from_array([1, 2, 3, 4]);
    assert_eq!(
        c,
        Rgba8 {
            r: 1,
            g: 2,
            b: 3,
            a: 4
        }
    );
}

#[test]
fn rgb_from_arry() {
    let c = Rgb8::from_arry([9, 8, 7]);
    assert_eq!(c, Rgb8 { r: 9, g: 8, b: 7 });
}

#[test]
fn rgba_to_rgb_drops_alpha() {
    let c = Rgba8 {
        r: 5,
        g: 6,
        b: 7,
        a: 8,
    };
    assert_eq!(c.to_rgb8(), Rgb8 { r: 5, g: 6, b: 7 });
}

#[test]
fn read_u16_le_order() {
    assert_eq!(bctex::read_u16_le(0xA3, 0x10), 0x10A3);
}
