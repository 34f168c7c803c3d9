use can_io::codec::{
    extract_signed, extract_unsigned, float32_bits, float64_bits, reverse_bit_order, reverse_byte,
    CodecError,
};

#[test]
fn unsigned_byte_at_start() {
    assert_eq!(extract_unsigned(&[0xFF, 0x00], 0, 8), Ok(255));
}

#[test]
fn unsigned_byte_at_offset() {
    assert_eq!(extract_unsigned(&[0x00, 0xFF], 8, 8), Ok(255));
}

#[test]
fn unsigned_field_across_bytes() {
    // bits 4..12 of 0x3412 are 0x41
    assert_eq!(extract_unsigned(&[0x12, 0x34], 4, 8), Ok(0x41));
}

#[test]
fn unsigned_full_width() {
    assert_eq!(extract_unsigned(&[0xFF; 8], 0, 64), Ok(u64::MAX));
    assert_eq!(
        extract_unsigned(&[1, 2, 3, 4, 5, 6, 7, 8], 0, 64),
        Ok(0x0807_0605_0403_0201)
    );
}

#[test]
fn unsigned_empty_field_at_end() {
    assert_eq!(extract_unsigned(&[0xFF; 8], 64, 0), Ok(0));
}

#[test]
fn signed_all_ones_is_minus_one() {
    assert_eq!(extract_signed(&[0x0F], 0, 4), Ok(-1));
}

#[test]
fn signed_positive() {
    assert_eq!(extract_signed(&[0x07], 0, 4), Ok(7));
}

#[test]
fn signed_most_negative_byte() {
    assert_eq!(extract_signed(&[0x80], 0, 8), Ok(-128));
}

#[test]
fn signed_full_width() {
    assert_eq!(extract_signed(&[0xFF; 8], 0, 64), Ok(-1));
    assert_eq!(extract_signed(&[0, 0, 0, 0, 0, 0, 0, 0x80], 0, 64), Ok(i64::MIN));
    assert_eq!(extract_signed(&[0xFF, 0xFF, 0xFF, 0xFF, 0xFF, 0xFF, 0xFF, 0x7F], 0, 64), Ok(i64::MAX));
}

#[test]
fn signed_width_63() {
    let mut bytes = [0xFF; 8];
    bytes[7] = 0x7F;
    assert_eq!(extract_signed(&bytes, 0, 63), Ok(-1));
}

#[test]
fn signed_zero_width_refused() {
    assert_eq!(extract_signed(&[0x01], 0, 0), Err(CodecError::ZeroLength));
}

#[test]
fn field_past_end_refused() {
    assert_eq!(extract_unsigned(&[0xAB], 4, 8), Err(CodecError::OutOfRange));
    assert_eq!(extract_signed(&[0xAB], 4, 8), Err(CodecError::OutOfRange));
}

#[test]
fn field_wider_than_payload_refused() {
    assert_eq!(extract_unsigned(&[0xAB], 0, 9), Err(CodecError::FieldTooLong));
}

#[test]
fn payload_over_eight_bytes_refused() {
    assert_eq!(extract_unsigned(&[0; 9], 0, 8), Err(CodecError::PayloadTooLong));
}

#[test]
fn reverse_single_high_bit() {
    let mut bytes = vec![0b1000_0000];
    reverse_bit_order(&mut bytes);
    assert_eq!(bytes, vec![0b0000_0001]);
}

#[test]
fn reverse_each_byte_on_its_own() {
    let mut bytes = vec![0b1100_0000, 0b0000_0110, 0xFF, 0x00];
    reverse_bit_order(&mut bytes);
    assert_eq!(bytes, vec![0b0000_0011, 0b0110_0000, 0xFF, 0x00]);
}

#[test]
fn reverse_byte_matches_std() {
    for b in 0..=255u8 {
        assert_eq!(reverse_byte(b), b.reverse_bits());
    }
}

#[test]
fn float32_round_trip() {
    let bytes = 1.5f32.to_le_bytes();
    let bits = float32_bits(&bytes, 0).unwrap();
    assert_eq!(f32::from_bits(bits), 1.5);
}

#[test]
fn float32_at_offset() {
    let mut bytes = vec![0xAA];
    bytes.extend_from_slice(&(-2.25f32).to_le_bytes());
    let bits = float32_bits(&bytes, 8).unwrap();
    assert_eq!(f32::from_bits(bits), -2.25);
}

#[test]
fn float32_past_end_refused() {
    assert_eq!(float32_bits(&[0, 0, 0, 0], 8), Err(CodecError::OutOfRange));
}

#[test]
fn float64_round_trip() {
    let bytes = 1.5f64.to_le_bytes();
    let bits = float64_bits(&bytes, 0).unwrap();
    assert_eq!(f64::from_bits(bits), 1.5);
}

#[test]
fn float64_needs_eight_bytes() {
    assert_eq!(float64_bits(&[0; 4], 0), Err(CodecError::FieldTooLong));
}
