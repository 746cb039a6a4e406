use ferrum_os::bytes::{copy_into, read_u16_le, read_u32_le, read_u64_le, sum_bytes, write_u16_le, write_u32_le};
use ferrum_os::drivers::fonts::color::colors::get_color;
use ferrum_os::drivers::fonts::color::Color;

#[test]
fn color_packs_as_argb() {
    let c = Color::new(0x12, 0x34, 0x56, 0x78);
    assert_eq!(c.to_u32(), 0x7812_3456);
}

#[test]
fn color_unpacks_argb() {
    let c = Color::from_u32(0xFF01_0203);
    assert_eq!(c, Color::new(1, 2, 3, 255));
}

#[test]
fn color_round_trip() {
    for v in [0u32, 1, 0xFFFF_FFFF, 0x8000_0001, 0x00AB_CDEF] {
        assert_eq!(Color::from_u32(v).to_u32(), v);
    }
    let c = Color::new(9, 8, 7, 6);
    assert_eq!(Color::from_u32(c.to_u32()), c);
}

#[test]
fn color_default_is_opaque_black() {
    assert_eq!(Color::default(), Color::new(0, 0, 0, 255));
    assert_eq!(Color::default().to_u32(), 0xFF00_0000);
}

#[test]
fn color_setters_change_one_channel() {
    let mut c = Color::new(1, 2, 3, 4);
    c.set_r(10);
    assert_eq!(c, Color::new(10, 2, 3, 4));
    c.set_g(20);
    assert_eq!(c, Color::new(10, 20, 3, 4));
    c.set_b(30);
    assert_eq!(c, Color::new(10, 20, 30, 4));
}

#[test]
fn palette_normal_and_bright() {
    assert_eq!(get_color(31, false), Color::new(170, 0, 0, 255));
    assert_eq!(get_color(41, false), Color::new(170, 0, 0, 255));
    assert_eq!(get_color(31, true), Color::new(255, 85, 85, 255));
    assert_eq!(get_color(30, true), Color::new(170, 170, 170, 255));
    assert_eq!(get_color(37, false), Color::new(170, 170, 170, 255));
    assert_eq!(get_color(47, true), Color::new(255, 255, 255, 255));
    assert_eq!(get_color(33, false), Color::new(170, 85, 0, 255));
    assert_eq!(get_color(36, true), Color::new(85, 255, 255, 255));
}

#[test]
fn palette_unknown_code_is_black() {
    assert_eq!(get_color(0, false), Color::new(0, 0, 0, 255));
    assert_eq!(get_color(99, true), Color::new(0, 0, 0, 255));
    assert_eq!(get_color(38, false), Color::new(0, 0, 0, 255));
}

#[test]
fn little_endian_reads() {
    let b = [0x01u8, 0x02, 0x03, 0x04, 0x05, 0x06, 0x07, 0x08, 0x09];
    assert_eq!(read_u16_le(&b, 0), 0x0201);
    assert_eq!(read_u32_le(&b, 1), 0x0504_0302);
    assert_eq!(read_u64_le(&b, 1), 0x0908_0706_0504_0302);
}

#[test]
fn byte_sum_of_range() {
    let b = [1u8, 2, 3, 250, 250];
    assert_eq!(sum_bytes(&b, 0, 5), 506);
    assert_eq!(sum_bytes(&b, 1, 3), 5);
    assert_eq!(sum_bytes(&b, 2, 2), 0);
}

#[test]
fn little_endian_write_then_read() {
    let mut v = vec![0u8; 8];
    write_u32_le(&mut v, 2, 0xDEAD_BEEF);
    assert_eq!(v, vec![0, 0, 0xEF, 0xBE, 0xAD, 0xDE, 0, 0]);
    assert_eq!(read_u32_le(&v, 2), 0xDEAD_BEEF);
    write_u16_le(&mut v, 0, 0x1234);
    assert_eq!(read_u16_le(&v, 0), 0x1234);
    assert_eq!(read_u32_le(&v, 2), 0xDEAD_BEEF);
}

#[test]
fn copy_into_splices() {
    let mut v = vec![9u8; 6];
    copy_into(&mut v, 1, &[1, 2, 3]);
    assert_eq!(v, vec![9, 1, 2, 3, 9, 9]);
}
