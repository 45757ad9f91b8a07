use chip8::chip8::{CHIP8, HEX_DIGITS};
use chip8::emulator::Emulator;
use chip8::error::Chip8Error;

fn fresh() -> Emulator {
    Emulator::new(CHIP8::default())
}

#[test]
fn default_state_is_the_reset_state() {
    let c = CHIP8::default();
    assert_eq!(&c.ram[0..80], &HEX_DIGITS[..]);
    assert!(c.ram[80..].iter().all(|b| *b == 0));
    assert_eq!(c.pc, 0x200);
    assert_eq!((c.i_reg, c.sp, c.dt, c.st), (0, 0, 0, 0));
    assert!(c.v_reg.iter().all(|r| *r == 0));
    assert!(c.stack.iter().all(|a| *a == 0));
    assert!(c.display.iter().all(|p| !*p));
    assert!(c.keys.iter().all(|k| !*k));
}

#[test]
fn font_table_has_the_classic_glyphs() {
    assert_eq!(HEX_DIGITS.len(), 80);
    assert_eq!(&HEX_DIGITS[0..5], &[0xF0, 0x90, 0x90, 0x90, 0xF0]);
    assert_eq!(&HEX_DIGITS[5..10], &[0x20, 0x60, 0x20, 0x20, 0x70]);
    assert_eq!(&HEX_DIGITS[75..80], &[0xF0, 0x80, 0xF0, 0x80, 0x80]);
}

#[test]
fn reset_restores_everything() {
    let mut e = fresh();
    e.init_ram(&[0x12, 0x34]).unwrap();
    e.set_v(3, 9).unwrap();
    e.set_i(0x321);
    e.set_dt(5);
    e.set_st(6);
    e.stack_push(0x300).unwrap();
    e.set_pixel(1, 1, true).unwrap();
    e.set_key(4, true).unwrap();
    e.set_to_ram(0, 0).unwrap();
    e.reset();
    let ram = e.get_ram();
    assert_eq!(&ram[0..80], &HEX_DIGITS[..]);
    assert!(ram[80..].iter().all(|b| *b == 0));
    assert_eq!(e.get_pc(), 0x200);
    assert_eq!((e.get_i(), e.get_sp(), e.get_dt(), e.get_st()), (0, 0, 0, 0));
    for r in 0..16u8 {
        assert_eq!(e.get_v(r), Ok(0));
        assert_eq!(e.is_key_pressed(r), Ok(false));
    }
    assert!(e.get_display().iter().all(|p| !*p));
}

#[test]
fn chip8_reset_restores_the_font() {
    let mut c = CHIP8::default();
    c.ram[0] = 0;
    c.ram[0x200] = 7;
    c.sp = 3;
    c.pc = 0x400;
    c.reset();
    assert_eq!(&c.ram[0..80], &HEX_DIGITS[..]);
    assert_eq!(c.ram[0x200], 0);
    assert_eq!((c.sp, c.pc), (0, 0x200));
}

#[test]
fn ram_write_and_read() {
    let mut e = fresh();
    assert_eq!(e.set_to_ram(0x300, 0xAB), Ok(()));
    assert_eq!(e.get_from_ram(0x300), Ok(0xAB));
    assert_eq!(e.set_to_ram(4095, 1), Ok(()));
    assert_eq!(e.get_from_ram(4095), Ok(1));
    assert_eq!(e.get_ram()[0x300], 0xAB);
}

#[test]
fn ram_beyond_4095_is_an_index_fault() {
    let mut e = fresh();
    assert_eq!(e.set_to_ram(4096, 1), Err(Chip8Error::IndexFault));
    assert_eq!(e.get_from_ram(4096), Err(Chip8Error::IndexFault));
    assert_eq!(e.set_to_ram(usize::MAX, 1), Err(Chip8Error::IndexFault));
    assert!(e.get_ram()[80..].iter().all(|b| *b == 0));
}

#[test]
fn registers_write_and_read() {
    let mut e = fresh();
    for r in 0..16u8 {
        assert_eq!(e.set_v(r, r + 1), Ok(()));
    }
    for r in 0..16u8 {
        assert_eq!(e.get_v(r), Ok(r + 1));
    }
}

#[test]
fn register_above_f_is_an_index_fault() {
    let mut e = fresh();
    assert_eq!(e.get_v(16), Err(Chip8Error::IndexFault));
    assert_eq!(e.set_v(16, 1), Err(Chip8Error::IndexFault));
    assert_eq!(e.get_v(255), Err(Chip8Error::IndexFault));
}

#[test]
fn timers_count_down_and_stop_at_zero() {
    let mut e = fresh();
    e.set_dt(2);
    e.set_st(1);
    assert!(e.buzzer());
    e.dec_all_timers();
    assert_eq!((e.get_dt(), e.get_st()), (1, 0));
    assert!(!e.buzzer());
    e.dec_all_timers();
    assert_eq!((e.get_dt(), e.get_st()), (0, 0));
    e.dec_dt();
    e.dec_st();
    assert_eq!((e.get_dt(), e.get_st()), (0, 0));
}

#[test]
fn timer_decay_over_k_frames() {
    for (start, k) in [(10u8, 3u32), (3, 10), (0, 5), (255, 255), (255, 300), (7, 0)] {
        let mut e = fresh();
        e.set_dt(start);
        e.set_st(start);
        for _ in 0..k {
            e.dec_all_timers();
        }
        let expected = (start as u32).saturating_sub(k) as u8;
        assert_eq!(e.get_dt(), expected);
        assert_eq!(e.get_st(), expected);
    }
}

#[test]
fn pc_moves_and_wraps() {
    let mut e = fresh();
    assert_eq!(e.get_pc(), 0x200);
    e.inc_pc_by(2);
    assert_eq!(e.get_pc(), 0x202);
    e.dec_pc_by(2);
    assert_eq!(e.get_pc(), 0x200);
    e.set_pc(0xFFFF);
    e.inc_pc_by(2);
    assert_eq!(e.get_pc(), 1);
    e.dec_pc_by(2);
    assert_eq!(e.get_pc(), 0xFFFF);
    e.set_pc(0);
    e.dec_pc_by(2);
    assert_eq!(e.get_pc(), 0);
}

#[test]
fn index_register_moves_and_wraps() {
    let mut e = fresh();
    e.set_i(0x0FFE);
    e.inc_i_by(3);
    assert_eq!(e.get_i(), 0x1001);
    e.set_i(0xFFFF);
    e.inc_i_by(1);
    assert_eq!(e.get_i(), 0);
}

#[test]
fn stack_push_then_pop_restores_pc() {
    let mut e = fresh();
    e.set_pc(0x202);
    assert_eq!(e.stack_push(0x300), Ok(()));
    assert_eq!((e.get_pc(), e.get_sp()), (0x300, 1));
    assert_eq!(e.stack_pop(), Ok(()));
    assert_eq!((e.get_pc(), e.get_sp()), (0x202, 0));
}

#[test]
fn stack_is_last_in_first_out() {
    let mut e = fresh();
    for k in 0..16u16 {
        e.set_pc(0x200 + 2 * k);
        assert_eq!(e.stack_push(0x800), Ok(()));
    }
    assert_eq!(e.get_sp(), 16);
    for k in (0..16u16).rev() {
        assert_eq!(e.stack_pop(), Ok(()));
        assert_eq!(e.get_pc(), 0x200 + 2 * k);
    }
    assert_eq!(e.get_sp(), 0);
}

#[test]
fn seventeenth_push_is_a_stack_overflow() {
    let mut e = fresh();
    for _ in 0..16 {
        e.stack_push(0x300).unwrap();
    }
    e.set_pc(0x222);
    assert_eq!(e.stack_push(0x400), Err(Chip8Error::StackOverflow));
    assert_eq!((e.get_pc(), e.get_sp()), (0x222, 16));
}

#[test]
fn pop_of_an_empty_stack_is_a_stack_underflow() {
    let mut e = fresh();
    assert_eq!(e.stack_pop(), Err(Chip8Error::StackUnderflow));
    assert_eq!((e.get_pc(), e.get_sp()), (0x200, 0));
}

#[test]
fn rom_is_copied_to_the_load_address() {
    let mut e = fresh();
    let rom: Vec<u8> = (0..100u8).collect();
    assert_eq!(e.load_rom(&rom), Ok(()));
    let ram = e.get_ram();
    assert_eq!(&ram[0x200..0x200 + 100], &rom[..]);
    assert_eq!(ram[0x200 + 100], 0);
    assert_eq!(&ram[0..80], &HEX_DIGITS[..]);
}

#[test]
fn largest_rom_fills_memory_to_the_end() {
    let mut e = fresh();
    let rom = vec![0xAAu8; 3584];
    assert_eq!(e.init_ram(&rom), Ok(()));
    let ram = e.get_ram();
    assert!(ram[0x200..].iter().all(|b| *b == 0xAA));
    assert_eq!(ram[0x1FF], 0);
    assert_eq!(&ram[0..80], &HEX_DIGITS[..]);
}

#[test]
fn rom_of_3585_bytes_is_too_large() {
    let mut e = fresh();
    let rom = vec![0xAAu8; 3585];
    assert_eq!(e.load_rom(&rom), Err(Chip8Error::RomTooLarge));
    assert_eq!(e.init_ram(&rom), Err(Chip8Error::RomTooLarge));
    assert!(e.get_ram()[0x200..].iter().all(|b| *b == 0));
}

#[test]
fn empty_rom_changes_nothing() {
    let mut e = fresh();
    assert_eq!(e.init_ram(&[]), Ok(()));
    assert!(e.get_ram()[80..].iter().all(|b| *b == 0));
}

#[test]
fn load_hex_digits_repairs_the_font() {
    let mut e = fresh();
    for a in 0..80 {
        e.set_to_ram(a, 0).unwrap();
    }
    e.set_to_ram(80, 0x55).unwrap();
    assert_eq!(e.load_hex_digits(), Ok(()));
    let ram = e.get_ram();
    assert_eq!(&ram[0..80], &HEX_DIGITS[..]);
    assert_eq!(ram[80], 0x55);
}

#[test]
fn pixels_write_and_read() {
    let mut e = fresh();
    assert_eq!(e.set_pixel(63, 31, true), Ok(()));
    assert_eq!(e.get_pixel(63, 31), Ok(true));
    assert_eq!(e.get_pixel(0, 0), Ok(false));
    assert!(e.get_display()[2047]);
    assert_eq!(e.set_pixel(5, 2, true), Ok(()));
    assert!(e.get_display()[2 * 64 + 5]);
    e.clear_screen();
    assert!(e.get_display().iter().all(|p| !*p));
}

#[test]
fn pixel_outside_the_screen_is_an_index_fault() {
    let mut e = fresh();
    assert_eq!(e.get_pixel(64, 0), Err(Chip8Error::IndexFault));
    assert_eq!(e.get_pixel(0, 32), Err(Chip8Error::IndexFault));
    assert_eq!(e.set_pixel(64, 31, true), Err(Chip8Error::IndexFault));
    assert!(e.get_display().iter().all(|p| !*p));
}

#[test]
fn toggle_pixel_wraps_and_reports_the_old_state() {
    let mut e = fresh();
    assert!(!e.toggle_pixel(64 + 3, 32 + 2));
    assert_eq!(e.get_pixel(3, 2), Ok(true));
    assert!(e.toggle_pixel(3, 2));
    assert_eq!(e.get_pixel(3, 2), Ok(false));
    assert!(!e.toggle_pixel(255, 255));
    assert_eq!(e.get_pixel(63, 31), Ok(true));
}

#[test]
fn keys_are_recorded() {
    let mut e = fresh();
    assert_eq!(e.check_key_press(), None);
    assert_eq!(e.set_key(7, true), Ok(()));
    assert_eq!(e.is_key_pressed(7), Ok(true));
    assert_eq!(e.is_key_pressed(6), Ok(false));
    assert_eq!(e.check_key_press(), Some(7));
    assert_eq!(e.set_key(2, true), Ok(()));
    assert_eq!(e.check_key_press(), Some(2));
    assert_eq!(e.set_key(2, false), Ok(()));
    assert_eq!(e.check_key_press(), Some(7));
}

#[test]
fn key_above_f_is_an_index_fault() {
    let mut e = fresh();
    assert_eq!(e.is_key_pressed(16), Err(Chip8Error::IndexFault));
    assert_eq!(e.set_key(16, true), Err(Chip8Error::IndexFault));
    assert_eq!(e.check_key_press(), None);
}

#[test]
fn keypad_snapshot_replaces_all_keys() {
    let mut e = fresh();
    e.set_key(1, true).unwrap();
    let mut keys = [false; 16];
    keys[15] = true;
    e.set_keys(keys);
    assert_eq!(e.is_key_pressed(1), Ok(false));
    assert_eq!(e.is_key_pressed(15), Ok(true));
    assert_eq!(e.check_key_press(), Some(15));
}
