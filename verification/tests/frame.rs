use ltc_reader::ltc_frame::{format_bits, read_bcd, read_digit};
use ltc_reader::LtcFrame;

/// Writes `value` into `bits[start..start + len]`, least-significant bit
/// first.
fn set_field(bits: &mut Vec<bool>, start: usize, len: usize, value: u8) {
    for k in 0..len {
        bits[start + k] = (value >> k) & 1 == 1;
    }
}

/// An 80-bit frame buffer with the given timecode fields, the sync word at
/// bits 64..80, and all other bits clear.
fn make_frame_bits(hour: u8, minute: u8, second: u8, frame: u8) -> Vec<bool> {
    let mut bits = vec![false; 80];
    set_field(&mut bits, 0, 4, frame % 10);
    set_field(&mut bits, 8, 2, frame / 10);
    set_field(&mut bits, 16, 4, second % 10);
    set_field(&mut bits, 24, 3, second / 10);
    set_field(&mut bits, 32, 4, minute % 10);
    set_field(&mut bits, 40, 3, minute / 10);
    set_field(&mut bits, 48, 4, hour % 10);
    set_field(&mut bits, 56, 2, hour / 10);
    for i in 0..16 {
        bits[64 + i] = (2..=13).contains(&i) || i == 15;
    }
    bits
}

#[test]
fn read_digit_weighs_bits_least_significant_first() {
    assert_eq!(read_digit(&[]), 0);
    assert_eq!(read_digit(&[true]), 1);
    assert_eq!(read_digit(&[false, true]), 2);
    assert_eq!(read_digit(&[true, false, true]), 5);
    assert_eq!(read_digit(&[true, true, true, true]), 15);
    assert_eq!(read_digit(&[false, false, false, true]), 8);
}

#[test]
fn read_bcd_combines_units_and_tens() {
    assert_eq!(read_bcd(&[true, false, false, true], &[true]), 19);
    assert_eq!(read_bcd(&[false, true, false, false], &[true, false, false]), 12);
    assert_eq!(read_bcd(&[false; 4], &[false, false]), 0);
    // Out-of-range digits pass through arithmetically without validation.
    assert_eq!(read_bcd(&[true, true, true, true], &[true, true]), 45);
}

#[test]
fn frame_fields_decode_from_fixed_offsets() {
    let bits = make_frame_bits(19, 12, 10, 7);
    let frame = LtcFrame::read(&bits);
    assert_eq!(frame.hour(), 19);
    assert_eq!(frame.minute(), 12);
    assert_eq!(frame.second(), 10);
    assert_eq!(frame.frame(), 7);
    assert!(!frame.is_drop());
    assert!(!frame.is_color());
    assert!(!frame.is_clock());
    assert_eq!(frame.userdata_format(), &[false, false, false]);
    assert_eq!(frame.userdata(), &[false; 32]);
}

#[test]
fn frame_flags_and_userdata_decode_from_fixed_offsets() {
    let mut bits = make_frame_bits(1, 2, 3, 4);
    bits[10] = true; // drop-frame
    bits[58] = true; // clock
    bits[27] = true; // first user-bit-format bit
    set_field(&mut bits, 4, 4, 0b1010); // first user-data group
    set_field(&mut bits, 60, 4, 0b0001); // last user-data group
    let frame = LtcFrame::read(&bits);
    assert!(frame.is_drop());
    assert!(!frame.is_color());
    assert!(frame.is_clock());
    assert_eq!(frame.userdata_format(), &[true, false, false]);
    let userdata = frame.userdata();
    assert_eq!(userdata.len(), 32);
    assert_eq!(&userdata[0..4], &[false, true, false, true]);
    assert_eq!(&userdata[28..32], &[true, false, false, false]);
    assert_eq!(&userdata[4..28], &[false; 24]);
}

#[test]
fn timecode_renders_and_reproduces_the_construction_string() {
    let bits = make_frame_bits(19, 12, 10, 7);
    let frame = LtcFrame::read(&bits);
    assert_eq!(frame.timecode(), "19:12:10:007");

    let bits = make_frame_bits(5, 0, 59, 29);
    let frame = LtcFrame::read(&bits);
    assert_eq!(frame.timecode(), "05:00:59:029");

    let bits = make_frame_bits(0, 0, 0, 0);
    let frame = LtcFrame::read(&bits);
    assert_eq!(frame.timecode(), "00:00:00:000");
}

#[test]
fn format_bits_renders_ones_and_zeroes() {
    assert_eq!(format_bits(&[]), "");
    assert_eq!(format_bits(&[true, false, true, true]), "1011");
    let bits = make_frame_bits(0, 0, 0, 0);
    let rendered = format_bits(&bits);
    assert_eq!(rendered.len(), 80);
    assert_eq!(&rendered[64..80], "0011111111111101");
}
