use inside_overlay::codec::{decode_pointer, decode_value, encode_value};

#[test]
fn pointer_is_read_least_significant_byte_first() {
    let bytes = [0x88u8, 0x77, 0x66, 0x55, 0x44, 0x33, 0x22, 0x11];
    let width = std::mem::size_of::<usize>();
    let expected = usize::from_le_bytes(bytes[..width].try_into().unwrap());
    assert_eq!(decode_pointer(&bytes), expected);
    if width == 8 {
        assert_eq!(decode_pointer(&bytes), 0x1122_3344_5566_7788);
    }
}

#[test]
fn pointer_of_one_byte() {
    assert_eq!(decode_pointer(&[0x2a]), 0x2a);
}

#[test]
fn pointer_of_no_bytes_is_zero() {
    assert_eq!(decode_pointer(&[]), 0);
}

#[test]
fn pointer_ignores_bytes_beyond_its_width() {
    let mut bytes = vec![1u8; std::mem::size_of::<usize>()];
    let exact = decode_pointer(&bytes);
    bytes.push(0xff);
    bytes.push(0xff);
    assert_eq!(decode_pointer(&bytes), exact);
}

#[test]
fn pointer_of_all_ones_is_the_largest_address() {
    assert_eq!(decode_pointer(&[0xff; 8]), usize::MAX);
}

#[test]
fn value_is_read_least_significant_byte_first() {
    assert_eq!(decode_value(&[0x78, 0x56, 0x34, 0x12]), 0x1234_5678);
}

#[test]
fn value_reads_four_bytes_of_a_longer_buffer() {
    assert_eq!(decode_value(&[0x78, 0x56, 0x34, 0x12, 0xff, 0xff, 0xff, 0xff]), 0x1234_5678);
}

#[test]
fn value_of_a_short_buffer_counts_missing_bytes_as_zero() {
    assert_eq!(decode_value(&[0x78, 0x56]), 0x5678);
    assert_eq!(decode_value(&[]), 0);
}

#[test]
fn value_of_zeros_is_zero() {
    assert_eq!(decode_value(&[0, 0, 0, 0]), 0);
    assert_eq!(f32::from_bits(decode_value(&[0, 0, 0, 0])), 0.0);
}

#[test]
fn encode_writes_least_significant_byte_first() {
    assert_eq!(encode_value(0x1234_5678), [0x78, 0x56, 0x34, 0x12]);
    assert_eq!(encode_value(0), [0, 0, 0, 0]);
    assert_eq!(encode_value(u32::MAX), [0xff, 0xff, 0xff, 0xff]);
}

#[test]
fn encode_agrees_with_the_float_encoding() {
    assert_eq!(encode_value(12.5f32.to_bits()), 12.5f32.to_le_bytes());
    assert_eq!(encode_value(12.5f32.to_bits()), [0x00, 0x00, 0x48, 0x41]);
    assert_eq!(encode_value((-0.0f32).to_bits()), (-0.0f32).to_le_bytes());
}

#[test]
fn decode_undoes_encode() {
    for bits in [0u32, 1, 0x80, 0xff00, 0x1234_5678, 0x7fc0_0001, 0xffff_ffff, 10.0f32.to_bits()] {
        assert_eq!(decode_value(&encode_value(bits)), bits);
    }
}

#[test]
fn a_signalling_nan_survives_the_round_trip_bit_for_bit() {
    let bits = 0x7fa0_0001u32;
    assert_eq!(decode_value(&encode_value(bits)), bits);
}
