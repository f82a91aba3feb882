use truetype::FontError;
use truetype::font_reader::{FontReader, bit_is_set};

#[test]
fn read_byte_advances() {
    let mut r = FontReader::new(vec![1, 2, 3]);
    assert_eq!(r.read_byte(), Ok(1));
    assert_eq!(r.read_byte(), Ok(2));
    assert_eq!(r.get_location(), 2);
    assert_eq!(r.read_byte(), Ok(3));
    assert_eq!(r.read_byte(), Err(FontError::UnexpectedEndOfData));
}

#[test]
fn read_u16_big_endian() {
    let mut r = FontReader::new(vec![0x12, 0x34, 0xFF, 0xFF]);
    assert_eq!(r.read_u16(), Ok(0x1234));
    assert_eq!(r.read_u16(), Ok(0xFFFF));
    assert_eq!(r.read_u16(), Err(FontError::UnexpectedEndOfData));
}

#[test]
fn read_u32_big_endian() {
    let mut r = FontReader::new(vec![0x01, 0x02, 0x03, 0x04, 0xAA]);
    assert_eq!(r.read_u32(), Ok(0x0102_0304));
    // only one byte left: the cursor stays put and the read fails
    assert_eq!(r.read_u32(), Err(FontError::UnexpectedEndOfData));
    assert_eq!(r.get_location(), 4);
    assert_eq!(r.read_byte(), Ok(0xAA));
}

#[test]
fn read_i16_signed() {
    let mut r = FontReader::new(vec![0xFF, 0xFE, 0x7F, 0xFF, 0x80, 0x00]);
    assert_eq!(r.read_i16(), Ok(-2));
    assert_eq!(r.read_i16(), Ok(32767));
    assert_eq!(r.read_i16(), Ok(-32768));
}

#[test]
fn read_tag_packs_big_endian() {
    let mut r = FontReader::new(vec![b'l', b'o', b'c', b'a']);
    assert_eq!(r.read_tag(), Ok(truetype::TAG_LOCA));
    assert_eq!(truetype::TAG_LOCA, u32::from_be_bytes(*b"loca"));
    assert_eq!(truetype::TAG_GLYF, u32::from_be_bytes(*b"glyf"));
    assert_eq!(truetype::TAG_CMAP, u32::from_be_bytes(*b"cmap"));
    assert_eq!(truetype::TAG_HEAD, u32::from_be_bytes(*b"head"));
    assert_eq!(truetype::TAG_MAXP, u32::from_be_bytes(*b"maxp"));
}

#[test]
fn seek_and_skip() {
    let mut r = FontReader::new(vec![10, 20, 30, 40]);
    r.go_to(2);
    assert_eq!(r.get_location(), 2);
    assert_eq!(r.read_byte(), Ok(30));
    r.skip_bytes(0);
    assert_eq!(r.get_location(), 3);
    r.go_to(0);
    r.skip_bytes(3);
    assert_eq!(r.read_byte(), Ok(40));
}

#[test]
fn seek_past_end_fails_on_next_read() {
    // seeking past the end is legal; only the next read reports it
    let mut r = FontReader::new(vec![1, 2]);
    r.go_to(100);
    assert_eq!(r.get_location(), 100);
    assert_eq!(r.read_byte(), Err(FontError::UnexpectedEndOfData));
    assert_eq!(r.read_u16(), Err(FontError::UnexpectedEndOfData));
}

#[test]
fn empty_buffer_fails() {
    let mut r = FontReader::new(Vec::new());
    assert_eq!(r.read_byte(), Err(FontError::UnexpectedEndOfData));
    assert_eq!(r.read_u16(), Err(FontError::UnexpectedEndOfData));
    assert_eq!(r.read_u32(), Err(FontError::UnexpectedEndOfData));
    assert_eq!(r.read_i16(), Err(FontError::UnexpectedEndOfData));
    assert_eq!(r.read_tag(), Err(FontError::UnexpectedEndOfData));
}

#[test]
fn bit_positions() {
    assert!(bit_is_set(0b0000_1001, 0));
    assert!(!bit_is_set(0b0000_1001, 1));
    assert!(bit_is_set(0b0000_1001, 3));
    assert!(bit_is_set(0b0010_0000, 5));
    assert!(!bit_is_set(0b0010_0000, 7));
}
