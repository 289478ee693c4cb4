use tick_pipeline::common::byte_utils::{le_to_u32, le_to_u64, read_le_u64, write_le_u64};

#[test]
fn test_le_to_u32() {
    let raw = &[0x01, 0x00, 0x00, 0x00];
    assert_eq!(le_to_u32(raw), 1);
}

#[test]
fn test_le_to_u64() {
    let raw = &[0x01, 0x00, 0x00, 0x00, 0x00, 0x00, 0x00, 0x00];
    assert_eq!(le_to_u64(raw), 1);
}

#[test]
fn le_to_u32_weighs_every_byte() {
    assert_eq!(le_to_u32(&[0x78, 0x56, 0x34, 0x12]), 0x1234_5678);
    assert_eq!(le_to_u32(&[0x00, 0x00, 0x00, 0x80]), 0x8000_0000);
}

#[test]
fn le_to_u32_extremes() {
    assert_eq!(le_to_u32(&[0, 0, 0, 0]), 0);
    assert_eq!(le_to_u32(&[0xff, 0xff, 0xff, 0xff]), u32::MAX);
}

#[test]
fn le_to_u64_weighs_every_byte() {
    let raw = [0xef, 0xcd, 0xab, 0x89, 0x67, 0x45, 0x23, 0x01];
    assert_eq!(le_to_u64(&raw), 0x0123_4567_89ab_cdef);
}

#[test]
fn le_to_u64_extremes() {
    assert_eq!(le_to_u64(&[0; 8]), 0);
    assert_eq!(le_to_u64(&[0xff; 8]), u64::MAX);
}

#[test]
fn le_to_u64_agrees_with_std() {
    let values = [0u64, 1, 255, 256, 0xdead_beef, u64::MAX - 1, 1 << 63];
    for value in values {
        assert_eq!(le_to_u64(&value.to_le_bytes()), value);
    }
}

#[test]
fn write_le_u64_spells_little_endian() {
    let mut data = [0xaau8; 12];
    write_le_u64(&mut data, 2, 0x0123_4567_89ab_cdef);
    assert_eq!(
        data,
        [0xaa, 0xaa, 0xef, 0xcd, 0xab, 0x89, 0x67, 0x45, 0x23, 0x01, 0xaa, 0xaa]
    );
}

#[test]
fn write_then_read_le_u64_round_trips() {
    let values = [0u64, 1, 0xff, 0x100, 0xffff_ffff, u64::MAX];
    for value in values {
        let mut data = [0x55u8; 24];
        write_le_u64(&mut data, 8, value);
        assert_eq!(read_le_u64(&data, 8), value);
        assert_eq!(read_le_u64(&data, 0), 0x5555_5555_5555_5555);
        assert_eq!(read_le_u64(&data, 16), 0x5555_5555_5555_5555);
    }
}
