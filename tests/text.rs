use hammster::text::{u32_array_text, u8_array_text};

#[test]
fn u32_arrays_are_listed_in_decimal() {
    assert_eq!(u32_array_text(&[]), "u32 array: []");
    assert_eq!(u32_array_text(&[8]), "u32 array: [8]");
    assert_eq!(u32_array_text(&[0, 10, 4294967295]), "u32 array: [0, 10, 4294967295]");
}

#[test]
fn u8_arrays_are_listed_in_hex() {
    assert_eq!(u8_array_text(&[]), "u8 array: []");
    assert_eq!(u8_array_text(&[0x0a]), "u8 array: [0A]");
    assert_eq!(u8_array_text(&[0, 0x7f, 0xff, 0x10]), "u8 array: [00, 7F, FF, 10]");
}
