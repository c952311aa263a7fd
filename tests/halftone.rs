use tspl_filter::halftone::halftone_row;

#[test]
fn light_group_is_blank() {
    assert_eq!(halftone_row(&[200; 8]), vec![0x00]);
    assert_eq!(halftone_row(&[128; 16]), vec![0x00, 0x00]);
}

#[test]
fn dark_group_is_solid() {
    assert_eq!(halftone_row(&[0; 8]), vec![0xFF]);
    assert_eq!(halftone_row(&[127; 3]), vec![0xFF]);
    assert_eq!(halftone_row(&[5; 11]), vec![0xFF, 0xFF]);
}

#[test]
fn short_light_groups_set_trailing_bits() {
    let expected = [0x7F, 0x3F, 0x1F, 0x0F, 0x07, 0x03, 0x01, 0x00];
    for len in 1..=8 {
        let row = vec![255u8; len];
        assert_eq!(halftone_row(&row), vec![expected[len - 1]], "length {}", len);
    }
}

#[test]
fn short_group_equals_dark_padding() {
    for len in 1..8 {
        let row: Vec<u8> = (0..len).map(|i| if i % 2 == 0 { 255 } else { 0 }).collect();
        let mut padded = row.clone();
        padded.resize(8, 0);
        assert_eq!(halftone_row(&row), halftone_row(&padded));
    }
}

#[test]
fn bits_follow_sample_order() {
    assert_eq!(halftone_row(&[255, 0, 255, 0, 255, 0, 255, 0]), vec![0x55]);
    assert_eq!(halftone_row(&[255, 0, 0, 0, 0, 0, 0, 0]), vec![0x7F]);
    assert_eq!(halftone_row(&[0, 0, 0, 0, 0, 0, 0, 255]), vec![0xFE]);
}

#[test]
fn threshold_is_128() {
    assert_eq!(halftone_row(&[127, 128, 0, 0, 0, 0, 0, 0]), vec![0xBF]);
}

#[test]
fn one_byte_per_group() {
    assert_eq!(halftone_row(&[]), Vec::<u8>::new());
    assert_eq!(halftone_row(&[0; 9]).len(), 2);
    assert_eq!(halftone_row(&[0; 17]).len(), 3);
}
