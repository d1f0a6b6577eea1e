use num_bigint::BigUint;
use zkp_chaum_pedersen::bignum::recode_be_bytes;

#[test]
fn recode_zero() {
    // Zero, in any spelling, becomes the single byte 0.
    assert_eq!(recode_be_bytes(&[]), vec![0u8]);
    assert_eq!(recode_be_bytes(&[0u8]), vec![0u8]);
    assert_eq!(recode_be_bytes(&[0u8, 0u8, 0u8]), vec![0u8]);
}

#[test]
fn recode_single_limb() {
    assert_eq!(recode_be_bytes(&[1u8]), vec![1u8]);
    assert_eq!(recode_be_bytes(&[255u8]), vec![255u8]);
    // 1125 = 4 * 256 + 101.
    assert_eq!(recode_be_bytes(&[4u8, 101u8]), vec![4u8, 101u8]);
    // Leading zeros are dropped; the value is unchanged.
    assert_eq!(recode_be_bytes(&[0u8, 0u8, 4u8, 101u8]), vec![4u8, 101u8]);
}

#[test]
fn recode_multi_limb() {
    // A value far beyond one machine word round-trips exactly.
    let big: Vec<u8> = vec![
        0xde, 0xad, 0xbe, 0xef, 0x01, 0x02, 0x03, 0x04, 0x05, 0x06, 0x07, 0x08, 0x09, 0x0a,
        0x0b, 0x0c, 0x0d, 0x0e, 0x0f, 0x10,
    ];
    assert_eq!(recode_be_bytes(&big), big);
    let n = BigUint::from_bytes_be(&big);
    assert_eq!(n.to_bytes_be(), recode_be_bytes(&big));
}
