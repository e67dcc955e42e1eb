use iex_deep_parser::wire::{ascii4, ri64, ru16, ru32, ru8, sym_str};

#[test]
fn bytes_are_read_where_they_stand() {
    let b = [7u8, 8, 9];
    assert_eq!(ru8(&b, 0), 7);
    assert_eq!(ru8(&b, 2), 9);
}

#[test]
fn integers_are_little_endian() {
    let b = [0xffu8, 0x01, 0x02, 0x03, 0x04, 0x05, 0x06, 0x07, 0x08];
    assert_eq!(ru16(&b, 1), 0x0201);
    assert_eq!(ru32(&b, 1), 0x0403_0201);
    assert_eq!(ri64(&b, 1), 0x0807_0605_0403_0201);
    assert_eq!(ru16(&b, 0), 0x01ff);
    assert_eq!(ru32(&[0xff; 4], 0), u32::MAX);
}

#[test]
fn signed_integers_are_in_twos_complement() {
    assert_eq!(ri64(&[0xff; 8], 0), -1);
    assert_eq!(ri64(&(-1_234_567i64).to_le_bytes(), 0), -1_234_567);
    assert_eq!(ri64(&i64::MIN.to_le_bytes(), 0), i64::MIN);
    assert_eq!(ri64(&i64::MAX.to_le_bytes(), 0), i64::MAX);
    assert_eq!(ri64(&0i64.to_le_bytes(), 0), 0);
}

#[test]
fn symbols_lose_their_padding() {
    assert_eq!(sym_str(b"ZIEXT   ", 0), "ZIEXT");
    assert_eq!(sym_str(b"xxABCDEFGH", 2), "ABCDEFGH");
    assert_eq!(sym_str(b" A B    ", 0), " A B");
    assert_eq!(sym_str(b"        ", 0), "");
    assert_eq!(sym_str(b"A\t\n\r    ", 0), "A");
}

#[test]
fn other_white_space_is_padding_too() {
    assert_eq!(sym_str("AB\u{3000}\u{3000}".as_bytes(), 0), "AB");
    assert_eq!(sym_str("ABCD\u{a0}\u{a0}".as_bytes(), 0), "ABCD");
    assert_eq!(sym_str("ABC\u{85}\u{2009}".as_bytes(), 0), "ABC");
    assert_eq!(sym_str("A\u{200b}    ".as_bytes(), 0), "A\u{200b}");
}

#[test]
fn zero_bytes_are_no_padding() {
    assert_eq!(sym_str(b"AB\0\0\0\0\0\0", 0), "AB\0\0\0\0\0\0");
}

#[test]
fn symbols_that_are_not_text_are_empty() {
    assert_eq!(sym_str(&[b'A', 0xff, b' ', b' ', b' ', b' ', b' ', b' '], 0), "");
    assert_eq!(ascii4(&[0xc3, 0x28, 0x20, 0x20], 0), "");
}

#[test]
fn fields_past_the_end_are_empty() {
    assert_eq!(sym_str(b"ABCDEFG", 0), "");
    assert_eq!(sym_str(b"ABCDEFGH", 1), "");
    assert_eq!(ascii4(b"ABC", 0), "");
    assert_eq!(ascii4(b"", 9), "");
}

#[test]
fn codes_lose_their_padding() {
    assert_eq!(ascii4(b"T1  ", 0), "T1");
    assert_eq!(ascii4(b"..MCB3", 2), "MCB3");
}

#[test]
fn signed_numbers_are_read_back() {
    for v in [0, 1, -1, 255, -256, 1_234_567_890_123, i64::MAX, i64::MIN] {
        assert_eq!(ri64(&v.to_le_bytes(), 0), v);
    }
}
