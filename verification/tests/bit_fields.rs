use bctex::bits::BitReader;

#[test]
fn read_is_msb_first() {
    let mut reader = BitReader::new([0b1011_0001, 0xFF]);
    assert_eq!(reader.read(1), 1);
    assert_eq!(reader.read(3), 0b011);
    assert_eq!(reader.read(4), 0b0001);
    assert_eq!(reader.read(8), 0xFF);
}

#[test]
fn read_spans_byte_boundaries() {
    let mut reader = BitReader::new([0b0000_0011, 0b1100_0000]);
    assert_eq!(reader.read(6), 0);
    assert_eq!(reader.read(4), 0b1111);
    assert_eq!(reader.read(6), 0);
}

#[test]
fn read_zero_bits_is_zero() {
    let mut reader = BitReader::new([0xFF]);
    assert_eq!(reader.read(0), 0);
    assert_eq!(reader.read(8), 0xFF);
}
