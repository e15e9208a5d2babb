use used_chunk_list::{bytes_to_hex_string, hex_string_to_bytes, HexToBytesConversionError};

#[test]
fn bytes_become_two_lower_case_digits_and_a_space() {
    assert_eq!(bytes_to_hex_string(&[0, 15, 171, 255, 16]), "00 0f ab ff 10 ");
    assert_eq!(bytes_to_hex_string(&[]), "");
}

#[test]
fn hex_text_becomes_bytes() {
    assert_eq!(hex_string_to_bytes("00 0f ab ff "), Ok(vec![0, 15, 171, 255]));
    assert_eq!(hex_string_to_bytes(""), Ok(vec![]));
    assert_eq!(hex_string_to_bytes(" \t\n\r "), Ok(vec![]));
    assert_eq!(hex_string_to_bytes("  +1A\tFF\n7"), Ok(vec![26, 255, 7]));
    assert_eq!(hex_string_to_bytes("000ff"), Ok(vec![255]));
}

#[test]
fn invalid_hex_text_is_refused() {
    for text in ["100", "zz", "+", "-1", "1 2 x3", "ab\u{00e9}", "0x10"] {
        assert_eq!(
            hex_string_to_bytes(text),
            Err(HexToBytesConversionError::InvalidHexCode)
        );
    }
}

#[test]
fn hex_text_round_trip() {
    let data: Vec<u8> = (0..=255u8).collect();
    assert_eq!(hex_string_to_bytes(&bytes_to_hex_string(&data)), Ok(data));
}
