use nprint_rs::options::{get_options_bits, OPTIONS_BYTES, OPTIONS_WIDTH};

#[test]
fn no_options_are_all_absent() {
    let bits = get_options_bits(&[]);
    assert_eq!(bits, vec![-1i8; 320]);
}

#[test]
fn options_are_unpacked_and_padded() {
    let bits = get_options_bits(&[0x02, 0x04]);
    assert_eq!(bits.len(), OPTIONS_WIDTH);
    assert_eq!(&bits[..16], &[0, 0, 0, 0, 0, 0, 1, 0, 0, 0, 0, 0, 0, 1, 0, 0]);
    assert!(bits[16..].iter().all(|b| *b == -1));
}

#[test]
fn full_options_leave_no_padding() {
    let raw = vec![0xa5u8; OPTIONS_BYTES];
    let bits = get_options_bits(&raw);
    assert_eq!(bits.len(), 320);
    for byte in 0..40 {
        assert_eq!(&bits[8 * byte..8 * byte + 8], &[1, 0, 1, 0, 0, 1, 0, 1]);
    }
}

#[test]
fn oversized_options_are_cut_at_the_width() {
    let mut raw = vec![0x00u8; 40];
    raw.extend_from_slice(&[0xff, 0xff, 0xff]);
    let bits = get_options_bits(&raw);
    assert_eq!(bits.len(), 320);
    assert_eq!(bits, vec![0i8; 320]);
    assert_eq!(bits, get_options_bits(&raw[..40]));
}
