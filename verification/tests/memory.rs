use chip8::chip8::HEX_DIGITS;
use chip8::memory::{Memory, MemoryController};

#[test]
fn new_memory_is_zero_with_pc_at_load_address() {
    let m = Memory::new();
    assert!(m.ram.iter().all(|b| *b == 0));
    assert!(m.stack.iter().all(|a| *a == 0));
    assert!(m.v_reg.iter().all(|r| *r == 0));
    assert_eq!((m.i_reg, m.sp, m.pc, m.dt, m.st), (0, 0, 0x200, 0, 0));
}

#[test]
fn reserved_memory_is_the_first_512_bytes() {
    let mut m = Memory::new();
    m.ram[0] = 1;
    m.ram[511] = 2;
    m.ram[512] = 3;
    let reserved = m.get_reserved_memory();
    assert_eq!(reserved.len(), 512);
    assert_eq!(reserved[0], 1);
    assert_eq!(reserved[511], 2);
}

#[test]
fn controller_registers() {
    let mut c = MemoryController::new(Memory::new());
    c.set_v(3, 0x42);
    assert_eq!(c.get_v(3), 0x42);
    c.set_v(0xF, 1);
    assert_eq!(c.get_v(0xF), 1);
    c.set_v(16, 9);
    assert_eq!(c.get_v(16), 0);
    assert_eq!(c.get_v(255), 0);
    assert_eq!(c.get_v(0), 0);
}

#[test]
fn controller_ram_and_font() {
    let mut c = MemoryController::new(Memory::new());
    c.set_ram(0x300, 0xAB);
    c.set_ram(4095, 0xCD);
    c.init_ram(&[1, 2, 3]);
    let ram = c.get_ram();
    assert_eq!(&ram[0..80], &HEX_DIGITS[..]);
    assert_eq!(&ram[0x200..0x203], &[1, 2, 3]);
    assert_eq!(ram[0x203], 0);
    assert_eq!(ram[0x300], 0xAB);
    assert_eq!(ram[4095], 0xCD);
}

#[test]
fn controller_timers_stop_at_zero() {
    let mut c = MemoryController::new(Memory::new());
    c.set_dt(2);
    c.set_st(1);
    c.dec_all_timers();
    assert_eq!((c.get_dt(), c.get_st()), (1, 0));
    c.dec_all_timers();
    assert_eq!((c.get_dt(), c.get_st()), (0, 0));
    c.dec_dt();
    c.dec_st();
    assert_eq!((c.get_dt(), c.get_st()), (0, 0));
}

#[test]
fn controller_pc_and_index() {
    let mut c = MemoryController::new(Memory::new());
    assert_eq!(c.get_pc(), 0x200);
    c.inc_pc_by(2);
    assert_eq!(c.get_pc(), 0x202);
    c.set_pc(0x400);
    assert_eq!(c.get_pc(), 0x400);
    c.set_i(0x123);
    c.inc_i_by(0x10);
    assert_eq!(c.get_i(), 0x133);
}

#[test]
fn controller_stack_push_then_pop() {
    let mut c = MemoryController::new(Memory::new());
    c.set_pc(0x202);
    c.stack_push(0x300);
    assert_eq!(c.get_pc(), 0x300);
    c.stack_push(0x400);
    assert_eq!(c.get_pc(), 0x400);
    c.stack_pop();
    assert_eq!(c.get_pc(), 0x300);
    c.stack_pop();
    assert_eq!(c.get_pc(), 0x202);
}
