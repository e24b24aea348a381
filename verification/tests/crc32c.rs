use fsfill::crc::ext4_style_crc32c_le;

#[test]
fn crc_zero_of_empty_is_zero() {
    // CRC32C identity: with seed 0 and no bytes the checksum is 0.
    assert_eq!(ext4_style_crc32c_le(0, &[]), 0);
}

#[test]
fn crc_empty_returns_seed() {
    assert_eq!(ext4_style_crc32c_le(0xdead_beef, &[]), 0xdead_beef);
    assert_eq!(ext4_style_crc32c_le(0xffff_ffff, &[]), 0xffff_ffff);
}

#[test]
fn crc_known_vector() {
    // The standard CRC-32C check value of "123456789" is 0xe3069283; the
    // ext4 wrap with seed !0 exposes the plain update with seed 0.
    let r = ext4_style_crc32c_le(0xffff_ffff, b"123456789");
    assert_eq!(r ^ 0xffff_ffff, 0xe306_9283);
}

#[test]
fn crc_matches_reference_update() {
    // The library's wrap must agree with the crc crate's Castagnoli update.
    let data = [0x01u8, 0x02, 0xfe, 0x00, 0x42];
    let seed = 0x1234_5678;
    let expected = crc::crc32::update(seed ^ !0u32, &crc::crc32::CASTAGNOLI_TABLE, &data) ^ !0u32;
    assert_eq!(ext4_style_crc32c_le(seed, &data), expected);
}
