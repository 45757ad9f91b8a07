use chip8::chip8::CHIP8;
use chip8::emulator::Emulator;
use chip8::error::Chip8Error;
use chip8::instruction::{Instruction, Quirks};

fn boot() -> Emulator {
    Emulator::new(CHIP8::default())
}

fn std_quirks() -> Quirks {
    Quirks::default()
}

fn run(e: &mut Emulator, ins: Instruction) -> Result<(), Chip8Error> {
    ins.execute(e, std_quirks(), 0)
}

#[test]
fn default_quirks() {
    let q = Quirks::default();
    assert!(!q.shift_uses_vy);
    assert!(q.load_store_advances_i);
}

#[test]
fn decode_every_instruction() {
    let cases: Vec<(u16, Instruction)> = vec![
        (0x0000, Instruction::Op0000),
        (0x00E0, Instruction::Op00E0),
        (0x00EE, Instruction::Op00EE),
        (0x1ABC, Instruction::Op1NNN(0xABC)),
        (0x2206, Instruction::Op2NNN(0x206)),
        (0x3A42, Instruction::Op3XNN(0xA, 0x42)),
        (0x4B01, Instruction::Op4XNN(0xB, 0x01)),
        (0x5120, Instruction::Op5XY0(1, 2)),
        (0x6CFF, Instruction::Op6XNN(0xC, 0xFF)),
        (0x7D10, Instruction::Op7XNN(0xD, 0x10)),
        (0x8120, Instruction::Op8XY0(1, 2)),
        (0x8121, Instruction::Op8XY1(1, 2)),
        (0x8122, Instruction::Op8XY2(1, 2)),
        (0x8123, Instruction::Op8XY3(1, 2)),
        (0x8014, Instruction::Op8XY4(0, 1)),
        (0x8015, Instruction::Op8XY5(0, 1)),
        (0x8126, Instruction::Op8XY6(1, 2)),
        (0x8127, Instruction::Op8XY7(1, 2)),
        (0x812E, Instruction::Op8XYE(1, 2)),
        (0x9120, Instruction::Op9XY0(1, 2)),
        (0xA123, Instruction::OpANNN(0x123)),
        (0xB123, Instruction::OpBNNN(0x123)),
        (0xC10F, Instruction::OpCXNN(1, 0x0F)),
        (0xD015, Instruction::OpDXYN(0, 1, 5)),
        (0xE19E, Instruction::OpEX9E(1)),
        (0xE1A1, Instruction::OpEXA1(1)),
        (0xF107, Instruction::OpFX07(1)),
        (0xF00A, Instruction::OpFX0A(0)),
        (0xF115, Instruction::OpFX15(1)),
        (0xF118, Instruction::OpFX18(1)),
        (0xF11E, Instruction::OpFX1E(1)),
        (0xF029, Instruction::OpFX29(0)),
        (0xF333, Instruction::OpFX33(3)),
        (0xF455, Instruction::OpFX55(4)),
        (0xF465, Instruction::OpFX65(4)),
    ];
    assert_eq!(cases.len(), 35);
    for (word, ins) in cases {
        assert_eq!(Instruction::decode(word), Ok(ins));
        assert!(ins.is_valid());
    }
}

#[test]
fn decode_rejects_words_outside_the_set() {
    for word in [
        0x0001u16, 0x00E1, 0x00FF, 0x0123, 0x0FFF, 0x5121, 0x512F, 0x8128, 0x812D, 0x812F, 0x9121,
        0xE100, 0xE19F, 0xE1A0, 0xF100, 0xF108, 0xF166, 0xF1FF,
    ] {
        assert_eq!(Instruction::decode(word), Err(Chip8Error::UnknownOpcode));
    }
}

#[test]
fn decode_of_every_word_is_valid_or_unknown() {
    let mut known = 0u32;
    for word in 0..=0xFFFFu16 {
        match Instruction::decode(word) {
            Ok(ins) => {
                assert!(ins.is_valid());
                known += 1;
            }
            Err(e) => assert_eq!(e, Chip8Error::UnknownOpcode),
        }
    }
    // class 0: three words; classes 1, 2, 3, 4, 6, 7, A, B, C: every word;
    // classes 5 and 9: last nibble 0; class 8: nine last nibbles; class D:
    // every word; class E: two low bytes; class F: nine low bytes.
    let by_class = 3 + 9 * 4096 + 2 * 256 + 9 * 256 + 4096 + 2 * 16 + 9 * 16;
    assert_eq!(known, by_class);
}

#[test]
fn operand_out_of_range_is_an_index_fault() {
    let mut e = boot();
    assert!(!Instruction::Op6XNN(16, 1).is_valid());
    assert_eq!(run(&mut e, Instruction::Op6XNN(16, 1)), Err(Chip8Error::IndexFault));
    assert_eq!(run(&mut e, Instruction::Op8XY4(0, 16)), Err(Chip8Error::IndexFault));
    assert_eq!(run(&mut e, Instruction::OpDXYN(0, 0, 16)), Err(Chip8Error::IndexFault));
    assert_eq!(run(&mut e, Instruction::Op1NNN(0x1000)), Err(Chip8Error::IndexFault));
    assert_eq!(run(&mut e, Instruction::OpFX65(200)), Err(Chip8Error::IndexFault));
    assert_eq!(e.get_pc(), 0x200);
    for r in 0..16u8 {
        assert_eq!(e.get_v(r), Ok(0));
    }
}

#[test]
fn nop_changes_nothing() {
    let mut e = boot();
    assert_eq!(run(&mut e, Instruction::Op0000), Ok(()));
    assert_eq!(e.get_pc(), 0x200);
}

#[test]
fn cls_clears_the_screen() {
    let mut e = boot();
    e.set_pixel(10, 10, true).unwrap();
    assert_eq!(run(&mut e, Instruction::Op00E0), Ok(()));
    assert!(e.get_display().iter().all(|p| !*p));
}

#[test]
fn jump_sets_pc() {
    let mut e = boot();
    assert_eq!(run(&mut e, Instruction::Op1NNN(0xABC)), Ok(()));
    assert_eq!(e.get_pc(), 0xABC);
    assert_eq!(e.get_sp(), 0);
}

#[test]
fn call_pushes_pc_and_ret_pops_it() {
    let mut e = boot();
    e.set_pc(0x202);
    assert_eq!(run(&mut e, Instruction::Op2NNN(0x400)), Ok(()));
    assert_eq!((e.get_pc(), e.get_sp()), (0x400, 1));
    assert_eq!(run(&mut e, Instruction::Op00EE), Ok(()));
    assert_eq!((e.get_pc(), e.get_sp()), (0x202, 0));
}

#[test]
fn ret_with_empty_stack_is_a_stack_underflow() {
    let mut e = boot();
    assert_eq!(run(&mut e, Instruction::Op00EE), Err(Chip8Error::StackUnderflow));
    assert_eq!((e.get_pc(), e.get_sp()), (0x200, 0));
}

#[test]
fn call_with_full_stack_is_a_stack_overflow() {
    let mut e = boot();
    for _ in 0..16 {
        assert_eq!(run(&mut e, Instruction::Op2NNN(0x300)), Ok(()));
    }
    e.set_pc(0x302);
    assert_eq!(run(&mut e, Instruction::Op2NNN(0x500)), Err(Chip8Error::StackOverflow));
    assert_eq!((e.get_pc(), e.get_sp()), (0x302, 16));
}

#[test]
fn skip_if_equal_and_if_not_equal_are_opposites() {
    for (vx, nn) in [(5u8, 5u8), (5, 6), (0, 0), (255, 0), (0, 255)] {
        let mut a = boot();
        a.set_v(2, vx).unwrap();
        assert_eq!(run(&mut a, Instruction::Op3XNN(2, nn)), Ok(()));
        let mut b = boot();
        b.set_v(2, vx).unwrap();
        assert_eq!(run(&mut b, Instruction::Op4XNN(2, nn)), Ok(()));
        let a_skipped = a.get_pc() == 0x202;
        let b_skipped = b.get_pc() == 0x202;
        assert_eq!(a_skipped, vx == nn);
        assert_eq!(b_skipped, vx != nn);
        assert_ne!(a_skipped, b_skipped);
        assert!(a.get_pc() == 0x200 || a.get_pc() == 0x202);
        assert!(b.get_pc() == 0x200 || b.get_pc() == 0x202);
    }
}

#[test]
fn skip_on_register_comparison() {
    let mut e = boot();
    e.set_v(1, 9).unwrap();
    e.set_v(2, 9).unwrap();
    e.set_v(3, 8).unwrap();
    assert_eq!(run(&mut e, Instruction::Op5XY0(1, 2)), Ok(()));
    assert_eq!(e.get_pc(), 0x202);
    assert_eq!(run(&mut e, Instruction::Op5XY0(1, 3)), Ok(()));
    assert_eq!(e.get_pc(), 0x202);
    assert_eq!(run(&mut e, Instruction::Op9XY0(1, 3)), Ok(()));
    assert_eq!(e.get_pc(), 0x204);
    assert_eq!(run(&mut e, Instruction::Op9XY0(1, 2)), Ok(()));
    assert_eq!(e.get_pc(), 0x204);
}

#[test]
fn load_and_add_immediate() {
    let mut e = boot();
    assert_eq!(run(&mut e, Instruction::Op6XNN(4, 0xF0)), Ok(()));
    assert_eq!(e.get_v(4), Ok(0xF0));
    e.set_v(0xF, 0x77).unwrap();
    assert_eq!(run(&mut e, Instruction::Op7XNN(4, 0x20)), Ok(()));
    assert_eq!(e.get_v(4), Ok(0x10));
    assert_eq!(e.get_v(0xF), Ok(0x77));
}

#[test]
fn add_immediate_to_vf_is_a_plain_sum() {
    let mut e = boot();
    e.set_v(0xF, 0xFF).unwrap();
    assert_eq!(run(&mut e, Instruction::Op7XNN(0xF, 2)), Ok(()));
    assert_eq!(e.get_v(0xF), Ok(1));
}

#[test]
fn copy_and_bitwise_leave_vf_alone() {
    let mut e = boot();
    e.set_v(1, 0b1100).unwrap();
    e.set_v(2, 0b1010).unwrap();
    e.set_v(0xF, 0x55).unwrap();
    assert_eq!(run(&mut e, Instruction::Op8XY0(3, 2)), Ok(()));
    assert_eq!(e.get_v(3), Ok(0b1010));
    assert_eq!(run(&mut e, Instruction::Op8XY1(1, 2)), Ok(()));
    assert_eq!(e.get_v(1), Ok(0b1110));
    e.set_v(1, 0b1100).unwrap();
    assert_eq!(run(&mut e, Instruction::Op8XY2(1, 2)), Ok(()));
    assert_eq!(e.get_v(1), Ok(0b1000));
    e.set_v(1, 0b1100).unwrap();
    assert_eq!(run(&mut e, Instruction::Op8XY3(1, 2)), Ok(()));
    assert_eq!(e.get_v(1), Ok(0b0110));
    assert_eq!(e.get_v(0xF), Ok(0x55));
    assert_eq!(e.get_v(2), Ok(0b1010));
}

#[test]
fn add_sets_carry_exactly_on_overflow() {
    for (vx, vy) in [(0u8, 0u8), (255, 0), (255, 1), (128, 128), (127, 128), (200, 100), (1, 254)] {
        let mut e = boot();
        e.set_v(0, vx).unwrap();
        e.set_v(1, vy).unwrap();
        assert_eq!(run(&mut e, Instruction::Op8XY4(0, 1)), Ok(()));
        let sum = vx as u16 + vy as u16;
        assert_eq!(e.get_v(0), Ok((sum % 256) as u8));
        assert_eq!(e.get_v(0xF), Ok(if sum >= 256 { 1 } else { 0 }));
        assert_eq!(e.get_v(1), Ok(vy));
    }
}

#[test]
fn flag_wins_when_the_target_is_vf() {
    let mut e = boot();
    e.set_v(0xF, 200).unwrap();
    e.set_v(1, 100).unwrap();
    assert_eq!(run(&mut e, Instruction::Op8XY4(0xF, 1)), Ok(()));
    assert_eq!(e.get_v(0xF), Ok(1));
    e.set_v(0xF, 5).unwrap();
    assert_eq!(run(&mut e, Instruction::Op8XY5(0xF, 1)), Ok(()));
    assert_eq!(e.get_v(0xF), Ok(0));
    e.set_v(0xF, 3).unwrap();
    assert_eq!(run(&mut e, Instruction::Op8XY6(0xF, 1)), Ok(()));
    assert_eq!(e.get_v(0xF), Ok(1));
}

#[test]
fn subtract_sets_no_borrow_flag() {
    for (vx, vy) in [(5u8, 3u8), (3, 5), (7, 7), (0, 1), (0, 0), (255, 255), (0, 255)] {
        let mut e = boot();
        e.set_v(2, vx).unwrap();
        e.set_v(3, vy).unwrap();
        assert_eq!(run(&mut e, Instruction::Op8XY5(2, 3)), Ok(()));
        assert_eq!(e.get_v(2), Ok(vx.wrapping_sub(vy)));
        assert_eq!(e.get_v(0xF), Ok(if vx >= vy { 1 } else { 0 }));
        let mut e = boot();
        e.set_v(2, vx).unwrap();
        e.set_v(3, vy).unwrap();
        assert_eq!(run(&mut e, Instruction::Op8XY7(2, 3)), Ok(()));
        assert_eq!(e.get_v(2), Ok(vy.wrapping_sub(vx)));
        assert_eq!(e.get_v(0xF), Ok(if vy >= vx { 1 } else { 0 }));
    }
}

#[test]
fn shifts_work_on_vx_by_default() {
    let mut e = boot();
    e.set_v(1, 0b1000_0101).unwrap();
    e.set_v(2, 0b0000_0010).unwrap();
    assert_eq!(run(&mut e, Instruction::Op8XY6(1, 2)), Ok(()));
    assert_eq!(e.get_v(1), Ok(0b0100_0010));
    assert_eq!(e.get_v(0xF), Ok(1));
    e.set_v(1, 0b1000_0101).unwrap();
    assert_eq!(run(&mut e, Instruction::Op8XYE(1, 2)), Ok(()));
    assert_eq!(e.get_v(1), Ok(0b0000_1010));
    assert_eq!(e.get_v(0xF), Ok(1));
    e.set_v(1, 0b0100_0000).unwrap();
    assert_eq!(run(&mut e, Instruction::Op8XYE(1, 2)), Ok(()));
    assert_eq!(e.get_v(1), Ok(0b1000_0000));
    assert_eq!(e.get_v(0xF), Ok(0));
    assert_eq!(e.get_v(2), Ok(0b0000_0010));
}

#[test]
fn shifts_work_on_vy_under_the_quirk() {
    let q = Quirks { shift_uses_vy: true, load_store_advances_i: true };
    let mut e = boot();
    e.set_v(1, 0xFF).unwrap();
    e.set_v(2, 0b0000_0110).unwrap();
    assert_eq!(Instruction::Op8XY6(1, 2).execute(&mut e, q, 0), Ok(()));
    assert_eq!(e.get_v(1), Ok(0b0000_0011));
    assert_eq!(e.get_v(0xF), Ok(0));
    assert_eq!(e.get_v(2), Ok(0b0000_0110));
    e.set_v(2, 0b1000_0001).unwrap();
    assert_eq!(Instruction::Op8XYE(1, 2).execute(&mut e, q, 0), Ok(()));
    assert_eq!(e.get_v(1), Ok(0b0000_0010));
    assert_eq!(e.get_v(0xF), Ok(1));
}

#[test]
fn load_index_and_jump_with_offset() {
    let mut e = boot();
    assert_eq!(run(&mut e, Instruction::OpANNN(0x321)), Ok(()));
    assert_eq!(e.get_i(), 0x321);
    e.set_v(0, 0x10).unwrap();
    assert_eq!(run(&mut e, Instruction::OpBNNN(0x300)), Ok(()));
    assert_eq!(e.get_pc(), 0x310);
}

#[test]
fn jump_with_offset_stays_within_12_bits() {
    let mut e = boot();
    e.set_v(0, 0xFF).unwrap();
    assert_eq!(run(&mut e, Instruction::OpBNNN(0xFFF)), Ok(()));
    assert_eq!(e.get_pc(), (0xFFF + 0xFF) & 0x0FFF);
    assert_eq!(e.get_pc(), 0x0FE);
}

#[test]
fn random_is_masked_with_nn() {
    for rnd in [0u8, 1, 0x5A, 0xA5, 0xFF] {
        for nn in [0u8, 0x0F, 0xF0, 0xFF, 0x3C] {
            let mut e = boot();
            e.set_v(5, 0x77).unwrap();
            assert_eq!(Instruction::OpCXNN(5, nn).execute(&mut e, std_quirks(), rnd), Ok(()));
            assert_eq!(e.get_v(5), Ok(rnd & nn));
        }
    }
}

#[test]
fn call_draws_a_random_byte_within_the_mask() {
    for _ in 0..200 {
        let mut e = boot();
        e.set_v(5, 0xFF).unwrap();
        assert_eq!(Instruction::OpCXNN(5, 0x0F).call(&mut e), Ok(()));
        assert!(e.get_v(5).unwrap() <= 0x0F);
        assert_eq!(Instruction::OpCXNN(6, 0x00).call(&mut e), Ok(()));
        assert_eq!(e.get_v(6), Ok(0));
    }
}

#[test]
fn call_draws_more_than_one_value() {
    let mut e = boot();
    let mut seen = [false; 256];
    for _ in 0..2000 {
        assert_eq!(Instruction::OpCXNN(1, 0xFF).call(&mut e), Ok(()));
        seen[e.get_v(1).unwrap() as usize] = true;
    }
    assert!(seen.iter().filter(|s| **s).count() > 100);
}

#[test]
fn call_uses_the_standard_quirks() {
    let mut e = boot();
    e.set_v(1, 0b0000_0011).unwrap();
    e.set_v(2, 0b0000_0100).unwrap();
    assert_eq!(Instruction::Op8XY6(1, 2).call(&mut e), Ok(()));
    assert_eq!(e.get_v(1), Ok(1));
    assert_eq!(e.get_v(0xF), Ok(1));
    e.set_i(0x300);
    assert_eq!(Instruction::OpFX55(2).call(&mut e), Ok(()));
    assert_eq!(e.get_i(), 0x303);
}

#[test]
fn skip_on_key_state() {
    let mut e = boot();
    e.set_key(7, true).unwrap();
    e.set_v(1, 7).unwrap();
    e.set_v(2, 8).unwrap();
    assert_eq!(run(&mut e, Instruction::OpEX9E(1)), Ok(()));
    assert_eq!(e.get_pc(), 0x202);
    assert_eq!(run(&mut e, Instruction::OpEX9E(2)), Ok(()));
    assert_eq!(e.get_pc(), 0x202);
    assert_eq!(run(&mut e, Instruction::OpEXA1(2)), Ok(()));
    assert_eq!(e.get_pc(), 0x204);
    assert_eq!(run(&mut e, Instruction::OpEXA1(1)), Ok(()));
    assert_eq!(e.get_pc(), 0x204);
}

#[test]
fn key_number_is_the_low_nibble_of_vx() {
    let mut e = boot();
    e.set_key(7, true).unwrap();
    e.set_v(1, 0xF7).unwrap();
    assert_eq!(run(&mut e, Instruction::OpEX9E(1)), Ok(()));
    assert_eq!(e.get_pc(), 0x202);
}

#[test]
fn timers_load_and_store() {
    let mut e = boot();
    e.set_v(1, 0x33).unwrap();
    assert_eq!(run(&mut e, Instruction::OpFX15(1)), Ok(()));
    assert_eq!(e.get_dt(), 0x33);
    assert_eq!(run(&mut e, Instruction::OpFX07(2)), Ok(()));
    assert_eq!(e.get_v(2), Ok(0x33));
    assert_eq!(run(&mut e, Instruction::OpFX18(1)), Ok(()));
    assert_eq!(e.get_st(), 0x33);
}

#[test]
fn wait_for_key_rewinds_until_a_key_is_down() {
    let mut e = boot();
    e.set_pc(0x202);
    assert_eq!(run(&mut e, Instruction::OpFX0A(3)), Ok(()));
    assert_eq!(e.get_pc(), 0x200);
    assert_eq!(e.get_v(3), Ok(0));
    e.set_pc(0x202);
    e.set_key(0xB, true).unwrap();
    assert_eq!(run(&mut e, Instruction::OpFX0A(3)), Ok(()));
    assert_eq!(e.get_pc(), 0x202);
    assert_eq!(e.get_v(3), Ok(0xB));
}

#[test]
fn add_to_index_wraps_at_16_bits() {
    let mut e = boot();
    e.set_i(0x0FFF);
    e.set_v(1, 2).unwrap();
    e.set_v(0xF, 9).unwrap();
    assert_eq!(run(&mut e, Instruction::OpFX1E(1)), Ok(()));
    assert_eq!(e.get_i(), 0x1001);
    assert_eq!(e.get_v(0xF), Ok(9));
    e.set_i(0xFFFF);
    assert_eq!(run(&mut e, Instruction::OpFX1E(1)), Ok(()));
    assert_eq!(e.get_i(), 1);
}

#[test]
fn glyph_address_is_five_times_the_low_nibble() {
    for vx in [0u8, 1, 0x0A, 0x0F, 0x1A, 0xFF] {
        let mut e = boot();
        e.set_v(2, vx).unwrap();
        assert_eq!(run(&mut e, Instruction::OpFX29(2)), Ok(()));
        assert_eq!(e.get_i(), 5 * (vx & 0x0F) as u16);
    }
}

#[test]
fn bcd_at_the_end_of_memory() {
    let mut e = boot();
    e.set_v(1, 123).unwrap();
    e.set_i(4093);
    assert_eq!(run(&mut e, Instruction::OpFX33(1)), Ok(()));
    let ram = e.get_ram();
    assert_eq!(&ram[4093..4096], &[1, 2, 3]);
    assert_eq!(e.get_i(), 4093);
}

#[test]
fn bcd_beyond_memory_is_an_index_fault() {
    let mut e = boot();
    e.set_v(1, 123).unwrap();
    e.set_i(4094);
    assert_eq!(run(&mut e, Instruction::OpFX33(1)), Err(Chip8Error::IndexFault));
    let ram = e.get_ram();
    assert_eq!(&ram[4094..4096], &[0, 0]);
}

#[test]
fn store_and_load_registers_advance_i() {
    let mut e = boot();
    for r in 0..16u8 {
        e.set_v(r, 0x10 + r).unwrap();
    }
    e.set_i(0x300);
    assert_eq!(run(&mut e, Instruction::OpFX55(3)), Ok(()));
    let ram = e.get_ram();
    assert_eq!(&ram[0x300..0x305], &[0x10, 0x11, 0x12, 0x13, 0]);
    assert_eq!(e.get_i(), 0x304);
    for r in 0..16u8 {
        e.set_v(r, 0).unwrap();
    }
    e.set_i(0x300);
    assert_eq!(run(&mut e, Instruction::OpFX65(2)), Ok(()));
    assert_eq!(e.get_v(0), Ok(0x10));
    assert_eq!(e.get_v(1), Ok(0x11));
    assert_eq!(e.get_v(2), Ok(0x12));
    assert_eq!(e.get_v(3), Ok(0));
    assert_eq!(e.get_i(), 0x303);
}

#[test]
fn store_and_load_registers_keep_i_without_the_quirk() {
    let q = Quirks { shift_uses_vy: false, load_store_advances_i: false };
    let mut e = boot();
    e.set_v(0, 7).unwrap();
    e.set_v(1, 8).unwrap();
    e.set_i(0x300);
    assert_eq!(Instruction::OpFX55(1).execute(&mut e, q, 0), Ok(()));
    assert_eq!(e.get_i(), 0x300);
    assert_eq!(&e.get_ram()[0x300..0x302], &[7, 8]);
    e.set_v(0, 0).unwrap();
    assert_eq!(Instruction::OpFX65(0).execute(&mut e, q, 0), Ok(()));
    assert_eq!(e.get_v(0), Ok(7));
    assert_eq!(e.get_v(1), Ok(8));
    assert_eq!(e.get_i(), 0x300);
}

#[test]
fn store_of_all_registers_at_the_end_of_memory() {
    let mut e = boot();
    for r in 0..16u8 {
        e.set_v(r, r + 1).unwrap();
    }
    e.set_i(4080);
    assert_eq!(run(&mut e, Instruction::OpFX55(15)), Ok(()));
    let ram = e.get_ram();
    for r in 0..16usize {
        assert_eq!(ram[4080 + r], r as u8 + 1);
    }
    assert_eq!(e.get_i(), 4096);
}

#[test]
fn block_transfer_beyond_memory_is_an_index_fault() {
    let mut e = boot();
    e.set_v(0, 0xAA).unwrap();
    e.set_i(4095);
    assert_eq!(run(&mut e, Instruction::OpFX55(1)), Err(Chip8Error::IndexFault));
    assert_eq!(e.get_ram()[4095], 0);
    assert_eq!(run(&mut e, Instruction::OpFX65(1)), Err(Chip8Error::IndexFault));
    assert_eq!(e.get_v(0), Ok(0xAA));
    assert_eq!(e.get_i(), 4095);
    assert_eq!(run(&mut e, Instruction::OpFX55(0)), Ok(()));
    assert_eq!(e.get_ram()[4095], 0xAA);
}
