use cbv::{as_u32, read_scroll, write_scroll};

#[test]
fn combines_bytes_big_endian() {
    assert_eq!(as_u32([0x12, 0x34, 0x56, 0x78]), 0x1234_5678);
    assert_eq!(as_u32([0xFF, 0, 0, 0x01]), 0xFF00_0001);
    assert_eq!(as_u32([0, 0, 0, 0]), 0);
}

#[test]
fn reads_words_in_order() {
    let bytes = [0x70, 0, 0, 0, 0xD2, 0, 0, 0x41];
    assert_eq!(read_scroll(&bytes), vec![0x7000_0000, 0xD200_0041]);
}

#[test]
fn drops_a_short_tail() {
    let bytes = [0xAA, 0xBB, 0xCC, 0xDD, 0x01, 0x02, 0x03];
    assert_eq!(read_scroll(&bytes), vec![0xAABB_CCDD]);
    assert_eq!(read_scroll(&[1, 2, 3]), Vec::<u32>::new());
    assert_eq!(read_scroll(&[]), Vec::<u32>::new());
}

#[test]
fn writes_words_big_endian() {
    assert_eq!(write_scroll(&[0x0102_0304, 0xA0B0_C0D0]), vec![1, 2, 3, 4, 0xA0, 0xB0, 0xC0, 0xD0]);
}

#[test]
fn image_round_trip() {
    let bytes: Vec<u8> = (0..64u32).map(|i| (i * 37 + 11) as u8).collect();
    assert_eq!(write_scroll(&read_scroll(&bytes)), bytes);
    let words = vec![0, 1, 0xFFFF_FFFF, 0x8000_0000, 0x0123_4567];
    assert_eq!(read_scroll(&write_scroll(&words)), words);
}
