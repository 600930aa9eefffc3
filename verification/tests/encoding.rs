use keygen::encoding::{base64_encode, hex_encode};

#[test]
fn hex_of_readme_example() {
    assert_eq!(hex_encode(&[0x4A, 0x8F, 0x2C, 0x71, 0xD3, 0xE5, 0xB0, 0x96]), "4A8F2C71D3E5B096");
}

#[test]
fn hex_is_two_upper_digits_per_byte() {
    assert_eq!(hex_encode(&[]), "");
    assert_eq!(hex_encode(&[0x00, 0x0F, 0xF0, 0xFF]), "000FF0FF");
    let bytes: Vec<u8> = (0..=255u8).collect();
    let h = hex_encode(&bytes);
    assert_eq!(h.len(), 512);
    assert!(h.chars().all(|c| c.is_ascii_digit() || ('A'..='F').contains(&c)));
}

#[test]
fn base64_of_readme_example() {
    let bytes = [0x4a, 0x8f, 0x2c, 0x71, 0xd7, 0xe5, 0xb3, 0x40, 0x80, 0xfb];
    assert_eq!(base64_encode(&bytes), "So8scdfls0CA+w==");
}

#[test]
fn base64_padding() {
    assert_eq!(base64_encode(b""), "");
    assert_eq!(base64_encode(b"hel"), "aGVs");
    assert_eq!(base64_encode(b"hell"), "aGVsbA==");
    assert_eq!(base64_encode(b"hello"), "aGVsbG8=");
}

#[test]
fn base64_length_is_four_per_started_group() {
    for n in 0..40usize {
        let bytes: Vec<u8> = (0..n).map(|i| (i * 37) as u8).collect();
        assert_eq!(base64_encode(&bytes).len(), 4 * ((n + 2) / 3));
    }
}
