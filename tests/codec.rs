use rust_os::byte_utils::{
    get_slice, get_slice_mut, get_u16_at, is_aligned, set_u16_at, u16_from_bytes, u16_to_bytes,
    u32_from_bytes, u32_to_bytes,
};

#[test]
fn u16_big_endian_values() {
    assert_eq!(u16_from_bytes([0x12, 0x34]), 0x1234);
    assert_eq!(u16_to_bytes(0x1234), [0x12, 0x34]);
    assert_eq!(u16_from_bytes([0x00, 0x2A]), 42);
    assert_eq!(u16_to_bytes(0xFF00), [0xFF, 0x00]);
}

#[test]
fn u32_big_endian_values() {
    assert_eq!(u32_from_bytes([0x12, 0x34, 0x56, 0x78]), 0x1234_5678);
    assert_eq!(u32_to_bytes(0x1234_5678), [0x12, 0x34, 0x56, 0x78]);
    assert_eq!(u32_to_bytes(0xFF00_0001), [0xFF, 0x00, 0x00, 0x01]);
}

#[test]
fn round_trips_hold_on_samples() {
    for w in [0u16, 1, 0x00FF, 0x0100, 0x7FFF, 0x8000, 0xABCD, 0xFFFF] {
        assert_eq!(u16_from_bytes(u16_to_bytes(w)), w);
    }
    for v in [0u32, 1, 0xFF, 0x1_0000, 0x7FFF_FFFF, 0x8000_0000, 0xDEAD_BEEF, u32::MAX] {
        assert_eq!(u32_from_bytes(u32_to_bytes(v)), v);
    }
    assert_eq!(u16_to_bytes(u16_from_bytes([0x9A, 0xBC])), [0x9A, 0xBC]);
    assert_eq!(u32_to_bytes(u32_from_bytes([1, 2, 3, 4])), [1, 2, 3, 4]);
}

#[test]
fn slices_are_bounds_checked() {
    let buf = [1u8, 2, 3, 4, 5];
    assert_eq!(get_slice(&buf, 1..3), Ok(&buf[1..3]));
    assert_eq!(get_slice(&buf, 0..5), Ok(&buf[..]));
    assert_eq!(get_slice(&buf, 5..5), Ok(&buf[5..5]));
    assert_eq!(get_slice(&buf, 3..2), Err(()));
    assert_eq!(get_slice(&buf, 4..6), Err(()));
}

#[test]
fn mutable_slices_write_through() {
    let mut buf = [0u8; 4];
    {
        let s = get_slice_mut(&mut buf, 1..3).unwrap();
        s[0] = 7;
        s[1] = 9;
    }
    assert_eq!(buf, [0, 7, 9, 0]);
    assert!(get_slice_mut(&mut buf, 2..5).is_err());
    assert!(get_slice_mut(&mut buf, 3..1).is_err());
}

#[test]
fn words_in_buffers() {
    let mut buf = [0u8; 4];
    assert_eq!(set_u16_at(&mut buf, 2, 0xBEEF), Ok(()));
    assert_eq!(buf, [0, 0, 0xBE, 0xEF]);
    assert_eq!(get_u16_at(&buf, 2), Ok(0xBEEF));
    assert_eq!(get_u16_at(&buf, 1), Ok(0x00BE));
    assert_eq!(get_u16_at(&buf, 3), Err(()));
    assert_eq!(set_u16_at(&mut buf, 3, 1), Err(()));
    assert_eq!(buf, [0, 0, 0xBE, 0xEF]);
    assert_eq!(get_u16_at(&buf, usize::MAX), Err(()));
}

#[test]
fn alignment() {
    assert!(is_aligned(0, 4));
    assert!(is_aligned(8, 4));
    assert!(!is_aligned(6, 4));
    assert!(is_aligned(7, 1));
}
