use chip8::bit::BitManipulation;
use chip8::instruction::{
    extract_class, extract_high_byte, extract_n, extract_nn, extract_nnn, extract_x, extract_y,
};
use chip8::math_2d::Math2d;

#[test]
fn nibbles_combine_to_an_address() {
    assert_eq!(BitManipulation::combine_nibbles_to_16bit_address(0x2, 0x0, 0x6), 0x206);
    assert_eq!(BitManipulation::combine_nibbles_to_16bit_address(0xF, 0xF, 0xF), 0xFFF);
    assert_eq!(BitManipulation::combine_nibbles_to_16bit_address(0, 0, 0), 0);
}

#[test]
fn wide_nibbles_are_or_ed_in_place() {
    assert_eq!(BitManipulation::combine_nibbles_to_16bit_address(0xFF, 0, 0), 0xFF00);
    assert_eq!(BitManipulation::combine_nibbles_to_16bit_address(0x01, 0x10, 0x01), 0x0101);
}

#[test]
fn bytes_combine_big_endian() {
    assert_eq!(BitManipulation::combine_bytes_to_16bit_instruction(0x22, 0x06), 0x2206);
    assert_eq!(BitManipulation::combine_bytes_to_16bit_instruction(0x00, 0xEE), 0x00EE);
    assert_eq!(BitManipulation::combine_bytes_to_16bit_instruction(0xFF, 0xFF), 0xFFFF);
}

#[test]
fn bcd_digits() {
    assert_eq!(BitManipulation::convert_decimal_to_bcd_tuple(254), (2, 5, 4));
    assert_eq!(BitManipulation::convert_decimal_to_bcd_tuple(0), (0, 0, 0));
    assert_eq!(BitManipulation::convert_decimal_to_bcd_tuple(255), (2, 5, 5));
    assert_eq!(BitManipulation::convert_decimal_to_bcd_tuple(9), (0, 0, 9));
    assert_eq!(BitManipulation::convert_decimal_to_bcd_tuple(100), (1, 0, 0));
}

#[test]
fn bcd_digits_make_up_the_number() {
    for d in 0..=255u8 {
        let (h, t, o) = BitManipulation::convert_decimal_to_bcd_tuple(d);
        assert_eq!(h as u32 * 100 + t as u32 * 10 + o as u32, d as u32);
        assert!(t < 10 && o < 10);
    }
}

#[test]
fn wrap_coord_keeps_what_is_inside() {
    assert_eq!(Math2d::wrap_coord(0, 64), 0);
    assert_eq!(Math2d::wrap_coord(63, 64), 63);
    assert_eq!(Math2d::wrap_coord(31, 32), 31);
}

#[test]
fn wrap_coord_folds_what_is_outside() {
    assert_eq!(Math2d::wrap_coord(64, 64), 0);
    assert_eq!(Math2d::wrap_coord(65, 64), 1);
    assert_eq!(Math2d::wrap_coord(255, 64), 63);
    assert_eq!(Math2d::wrap_coord(32, 32), 0);
    assert_eq!(Math2d::wrap_coord(100, 32), 4);
    assert_eq!(Math2d::wrap_coord(7, 1), 0);
}

#[test]
fn wrap_coord_on_a_wide_grid_changes_nothing() {
    assert_eq!(Math2d::wrap_coord(255, 256), 255);
    assert_eq!(Math2d::wrap_coord(255, 1000), 255);
}

#[test]
fn fields_of_an_instruction_word() {
    let word: u16 = 0xD12A;
    assert_eq!(extract_class(word), 0xD);
    assert_eq!(extract_x(word), 0x1);
    assert_eq!(extract_y(word), 0x2);
    assert_eq!(extract_n(word), 0xA);
    assert_eq!(extract_nn(word), 0x2A);
    assert_eq!(extract_nnn(word), 0x12A);
    assert_eq!(extract_high_byte(word), 0xD1);
}
