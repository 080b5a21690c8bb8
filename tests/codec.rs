use secp256k1_zkp_sys::codec::from_hex;

#[test]
fn decode_empty_writes_nothing() {
    let mut buf = [9u8; 4];
    assert_eq!(from_hex("", &mut buf), Ok(0));
    assert_eq!(buf, [9, 9, 9, 9]);
}

#[test]
fn decode_two_bytes() {
    let mut buf = [0u8; 2];
    assert_eq!(from_hex("00ff", &mut buf), Ok(2));
    assert_eq!(buf, [0x00, 0xFF]);
}

#[test]
fn decode_leaves_rest_of_buffer() {
    let mut buf = [0x11u8; 4];
    assert_eq!(from_hex("00ff", &mut buf), Ok(2));
    assert_eq!(buf, [0x00, 0xFF, 0x11, 0x11]);
}

#[test]
fn decode_odd_length_fails() {
    let mut buf = [5u8; 4];
    assert_eq!(from_hex("a", &mut buf), Err(()));
    assert_eq!(buf, [5, 5, 5, 5]);
}

#[test]
fn decode_invalid_character_fails() {
    let mut buf = [5u8; 4];
    assert_eq!(from_hex("gg", &mut buf), Err(()));
    assert_eq!(buf, [5, 5, 5, 5]);
}

#[test]
fn decode_invalid_character_after_valid_pair_writes_nothing() {
    let mut buf = [5u8; 4];
    assert_eq!(from_hex("12zz", &mut buf), Err(()));
    assert_eq!(buf, [5, 5, 5, 5]);
}

#[test]
fn decode_non_ascii_fails() {
    let mut buf = [5u8; 4];
    assert_eq!(from_hex("é1", &mut buf), Err(()));
    assert_eq!(buf, [5, 5, 5, 5]);
}

#[test]
fn decode_exceeding_capacity_fails() {
    let mut buf = [5u8; 2];
    assert_eq!(from_hex("00112233", &mut buf), Err(()));
    assert_eq!(buf, [5, 5]);
}

#[test]
fn decode_exactly_filling_capacity() {
    let mut buf = [0u8; 4];
    assert_eq!(from_hex("00112233", &mut buf), Ok(4));
    assert_eq!(buf, [0x00, 0x11, 0x22, 0x33]);
}

#[test]
fn decode_into_empty_buffer() {
    let mut buf: [u8; 0] = [];
    assert_eq!(from_hex("", &mut buf), Ok(0));
    assert_eq!(from_hex("00", &mut buf), Err(()));
}

#[test]
fn decode_is_case_insensitive() {
    let mut upper = [0u8; 2];
    let mut lower = [0u8; 2];
    assert_eq!(from_hex("AaBb", &mut upper), Ok(2));
    assert_eq!(from_hex("aabb", &mut lower), Ok(2));
    assert_eq!(upper, [0xAA, 0xBB]);
    assert_eq!(upper, lower);
}

#[test]
fn decode_all_digits() {
    let mut buf = [0u8; 8];
    assert_eq!(from_hex("0123456789abcdef", &mut buf), Ok(8));
    assert_eq!(buf, [0x01, 0x23, 0x45, 0x67, 0x89, 0xAB, 0xCD, 0xEF]);
    assert_eq!(from_hex("FEDCBA98", &mut buf), Ok(4));
    assert_eq!(buf[..4], [0xFE, 0xDC, 0xBA, 0x98]);
}

#[test]
fn decode_twice_gives_same_bytes() {
    let mut first = [0u8; 32];
    let mut second = [0u8; 32];
    let text = "e3b0c44298fc1c149afbf4c8996fb92427ae41e4649b934ca495991b7852b855";
    assert_eq!(from_hex(text, &mut first), Ok(32));
    assert_eq!(from_hex(text, &mut second), Ok(32));
    assert_eq!(first, second);
    assert_eq!(first[0], 0xE3);
    assert_eq!(first[31], 0x55);
}
