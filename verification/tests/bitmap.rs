use fsfill::bitmap::Bitmap;

#[test]
fn check_bit() {
    let bmp = Bitmap::from_bytes(&[0x43, 0x56, 0xfa]);

    assert_eq!(true, bmp.check_bit(0));
    assert_eq!(true, bmp.check_bit(1));
    assert_eq!(false, bmp.check_bit(2));
    assert_eq!(false, bmp.check_bit(3));
    assert_eq!(false, bmp.check_bit(4));
    assert_eq!(false, bmp.check_bit(5));
    assert_eq!(true, bmp.check_bit(6));
    assert_eq!(false, bmp.check_bit(7));

    assert_eq!(false, bmp.check_bit(8));
    assert_eq!(true, bmp.check_bit(9));
    assert_eq!(true, bmp.check_bit(10));
    assert_eq!(false, bmp.check_bit(11));
    assert_eq!(true, bmp.check_bit(12));
    assert_eq!(false, bmp.check_bit(13));
    assert_eq!(true, bmp.check_bit(14));
    assert_eq!(false, bmp.check_bit(15));

    assert_eq!(false, bmp.check_bit(16));
    assert_eq!(true, bmp.check_bit(17));
    assert_eq!(false, bmp.check_bit(18));
    assert_eq!(true, bmp.check_bit(19));
    assert_eq!(true, bmp.check_bit(20));
    assert_eq!(true, bmp.check_bit(21));
    assert_eq!(true, bmp.check_bit(22));
    assert_eq!(true, bmp.check_bit(23));
}

#[test]
fn check_bit_lsb_order() {
    // Each bit of one byte, LSB-first: bit(i) == ((b >> i) & 1) != 0.
    let b: u8 = 0b1011_0010;
    let bmp = Bitmap::from_bytes(&[b]);
    for i in 0..8 {
        assert_eq!(bmp.check_bit(i), ((b >> i) & 1) != 0);
    }
}

#[test]
fn check_all_matches_check_bit() {
    let bmp = Bitmap::from_bytes(&[0x00, 0xff, 0x5a]);
    let all = bmp.check_all();
    assert_eq!(all.len(), 24);
    for i in 0..24 {
        assert_eq!(all[i], bmp.check_bit(i));
    }
}
