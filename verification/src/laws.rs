//! Laws of the machine, proved from the model of its instructions.

use vstd::prelude::*;
use crate::bit::word_from_bytes;
use crate::chip8::{
    decayed, wrap_u8, Machine, FONT_SIZE, HEX_DIGITS, RAM_SIZE, SCREEN_SIZE, STACK_SIZE, START_ADDR,
};
use crate::cpu::{after_fetch, can_fetch, fetched_word, run_cycles, step};
use crate::display::{display_after_draw, draw_collides, sprite_covers, sprite_in_memory};
use crate::error::Chip8Error;
use crate::executor::{exec_spec, flag};
use crate::instruction::{decode_spec, Instruction, Quirks};

verus! {

/// After a reset the font table lies at the bottom of memory, the rest of
/// memory is zero, the program counter is at the load address, and every
/// register, timer, pixel and key is zero or off, with an empty stack.
pub proof fn lemma_reset_state()
    ensures
        Machine::initial().wf(),
        Machine::initial().ram.subrange(0, FONT_SIZE as int) == HEX_DIGITS@,
        forall|a: int| FONT_SIZE <= a < RAM_SIZE ==> Machine::initial().ram[a] == 0,
        Machine::initial().pc == START_ADDR,
        Machine::initial().i == 0,
        Machine::initial().sp() == 0,
        Machine::initial().dt == 0,
        Machine::initial().st == 0,
        forall|r: int| 0 <= r < 16 ==> Machine::initial().v[r] == 0,
        forall|p: int| 0 <= p < SCREEN_SIZE ==> !Machine::initial().display[p],
        forall|k: int| 0 <= k < 16 ==> !Machine::initial().keys[k],
{
    assert(Machine::initial().ram.subrange(0, FONT_SIZE as int) =~= HEX_DIGITS@);
}

/// An instruction takes a machine of the right shape to one of the right
/// shape: 4096 bytes of memory, 16 registers and at most 16 stack entries.
pub proof fn lemma_exec_keeps_shape(m: Machine, ins: Instruction, quirks: Quirks, rnd: u8)
    requires
        m.wf(),
    ensures
        exec_spec(m, ins, quirks, rnd) matches Ok(next) ==> next.wf(),
{
}

/// A cycle takes a machine of the right shape to one of the right shape.
pub proof fn lemma_step_keeps_shape(m: Machine, quirks: Quirks, rnd: u8)
    requires
        m.wf(),
    ensures
        step(m, quirks, rnd) matches Ok(next) ==> next.wf(),
{
    if can_fetch(m) {
        match decode_spec(fetched_word(m)) {
            Some(ins) => lemma_exec_keeps_shape(after_fetch(m), ins, quirks, rnd),
            None => {},
        }
    }
}

/// Any number of cycles takes a machine of the right shape to one of the
/// right shape.
pub proof fn lemma_cycles_keep_shape(m: Machine, quirks: Quirks, rnds: Seq<u8>)
    requires
        m.wf(),
    ensures
        run_cycles(m, quirks, rnds).0.wf(),
    decreases rnds.len(),
{
    if rnds.len() > 0 {
        lemma_cycles_keep_shape(m, quirks, rnds.drop_last());
        lemma_step_keeps_shape(run_cycles(m, quirks, rnds.drop_last()).0, quirks, rnds.last());
    }
}

/// Whether the program counter and every return address on the stack are
/// even.
pub open spec fn aligned(m: Machine) -> bool {
    &&& m.pc % 2 == 0
    &&& forall|k: int| 0 <= k < m.stack.len() ==> m.stack[k] % 2 == 0
}

/// Whether `ins`, executed on `m`, transfers control to an even address or
/// does not transfer control by an operand at all.
pub open spec fn jumps_to_even(m: Machine, ins: Instruction) -> bool {
    match ins {
        Instruction::Op1NNN(nnn) => nnn % 2 == 0,
        Instruction::Op2NNN(nnn) => nnn % 2 == 0,
        Instruction::OpBNNN(nnn) => (nnn + m.v[0]) % 2 == 0,
        _ => true,
    }
}

/// A cycle keeps the program counter and the return addresses even, unless
/// the instruction jumps to an odd address.
pub proof fn lemma_pc_stays_even(m: Machine, quirks: Quirks, rnd: u8)
    requires
        m.wf(),
        aligned(m),
        decode_spec(fetched_word(m)) matches Some(ins) ==> jumps_to_even(m, ins),
    ensures
        step(m, quirks, rnd) matches Ok(next) ==> aligned(next),
{
    if can_fetch(m) {
        match decode_spec(fetched_word(m)) {
            Some(ins) => {
                let fetched = after_fetch(m);
                match exec_spec(fetched, ins, quirks, rnd) {
                    Ok(next) => {
                        assert(fetched.pc % 2 == 0);
                        assert(fetched.stack == m.stack);
                        assert(next.pc % 2 == 0);
                        assert forall|k: int| 0 <= k < next.stack.len() implies next.stack[k] % 2
                            == 0 by {
                            if k < m.stack.len() {
                                assert(next.stack[k] == m.stack[k]);
                            }
                        }
                    },
                    Err(_) => {},
                }
            },
            None => {},
        }
    }
}

/// A call followed at once by a return leads to the instruction behind the
/// call and leaves the stack, and everything else, as it was.
pub proof fn lemma_call_then_return(m: Machine, nnn: u16, quirks: Quirks, rnd: u8)
    requires
        m.wf(),
        m.sp() < STACK_SIZE,
        can_fetch(m),
        nnn + 1 < RAM_SIZE,
        fetched_word(m) == Instruction::Op2NNN(nnn).encode(),
        word_from_bytes(m.ram[nnn as int], m.ram[nnn + 1]) == Instruction::Op00EE.encode(),
    ensures
        step(m, quirks, rnd) matches Ok(called) && called.pc == nnn && called.sp() == m.sp() + 1
            && step(called, quirks, rnd) == Ok::<Machine, Chip8Error>(after_fetch(m)),
{
    Instruction::Op2NNN(nnn).lemma_encode_then_decode();
    Instruction::Op00EE.lemma_encode_then_decode();
    let fetched = after_fetch(m);
    let called = Machine { stack: fetched.stack.push(fetched.pc), pc: nnn, ..fetched };
    assert(step(m, quirks, rnd) == Ok::<Machine, Chip8Error>(called));
    assert(can_fetch(called));
    assert(fetched_word(called) == Instruction::Op00EE.encode());
    let in_callee = after_fetch(called);
    assert(in_callee.stack.drop_last() =~= m.stack);
    assert(in_callee.stack.last() == fetched.pc);
    assert(exec_spec(in_callee, Instruction::Op00EE, quirks, rnd) == Ok::<Machine, Chip8Error>(
        fetched,
    ));
}

/// Whether executing `ins` on `m` skips the next instruction and does
/// nothing else.
pub open spec fn skips(m: Machine, ins: Instruction, quirks: Quirks, rnd: u8) -> bool {
    exec_spec(m, ins, quirks, rnd) == Ok::<Machine, Chip8Error>(m.skip_if(true))
}

/// Whether executing `ins` on `m` does nothing.
pub open spec fn falls_through(m: Machine, ins: Instruction, quirks: Quirks, rnd: u8) -> bool {
    exec_spec(m, ins, quirks, rnd) == Ok::<Machine, Chip8Error>(m)
}

/// For the same register and byte, 3XNN skips exactly when 4XNN does not,
/// and either of them skips or does nothing.
pub proof fn lemma_skip_symmetry(m: Machine, x: u8, nn: u8, quirks: Quirks, rnd: u8)
    requires
        m.wf(),
        x < 16,
    ensures
        skips(m, Instruction::Op3XNN(x, nn), quirks, rnd) <==> !skips(
            m,
            Instruction::Op4XNN(x, nn),
            quirks,
            rnd,
        ),
        skips(m, Instruction::Op3XNN(x, nn), quirks, rnd) <==> m.v[x as int] == nn,
        skips(m, Instruction::Op3XNN(x, nn), quirks, rnd) != falls_through(
            m,
            Instruction::Op3XNN(x, nn),
            quirks,
            rnd,
        ),
        skips(m, Instruction::Op4XNN(x, nn), quirks, rnd) != falls_through(
            m,
            Instruction::Op4XNN(x, nn),
            quirks,
            rnd,
        ),
{
    assert(m.skip_if(true).pc != m.pc);
}

/// Drawing the same sprite twice at the same place gives back the
/// framebuffer, and the second drawing turns a lit pixel off exactly when
/// the sprite has a set bit on a pixel that was unlit at first.
pub proof fn lemma_draw_twice(display: Seq<bool>, ram: Seq<u8>, i: u16, vx: u8, vy: u8, n: u8)
    requires
        display.len() == SCREEN_SIZE,
    ensures
        display_after_draw(display_after_draw(display, ram, i, vx, vy, n), ram, i, vx, vy, n)
            == display,
        draw_collides(display_after_draw(display, ram, i, vx, vy, n), ram, i, vx, vy, n) <==> (
        exists|p: int|
            0 <= p < SCREEN_SIZE && !display[p] && #[trigger] sprite_covers(ram, i, vx, vy, n, p)),
{
    let once = display_after_draw(display, ram, i, vx, vy, n);
    let twice = display_after_draw(once, ram, i, vx, vy, n);
    assert(twice =~= display);
    if draw_collides(once, ram, i, vx, vy, n) {
        let p = choose|p: int|
            0 <= p < SCREEN_SIZE && once[p] && #[trigger] sprite_covers(ram, i, vx, vy, n, p);
        assert(!display[p] && sprite_covers(ram, i, vx, vy, n, p));
    }
    if exists|p: int|
        0 <= p < SCREEN_SIZE && !display[p] && #[trigger] sprite_covers(ram, i, vx, vy, n, p) {
        let p = choose|p: int|
            0 <= p < SCREEN_SIZE && !display[p] && #[trigger] sprite_covers(ram, i, vx, vy, n, p);
        assert(once[p] && sprite_covers(ram, i, vx, vy, n, p));
    }
}

/// Executing the same draw instruction twice, with coordinates that are not
/// taken from VF, gives back the framebuffer; VF is then 1 exactly when the
/// sprite has a set bit on a pixel that was unlit at first.
pub proof fn lemma_draw_instruction_twice(m: Machine, x: u8, y: u8, n: u8, quirks: Quirks, rnd: u8)
    requires
        m.wf(),
        x < 15,
        y < 15,
        sprite_in_memory(m.i, n),
    ensures
        exec_spec(m, Instruction::OpDXYN(x, y, n), quirks, rnd) matches Ok(once) && exec_spec(
            once,
            Instruction::OpDXYN(x, y, n),
            quirks,
            rnd,
        ) matches Ok(twice) && twice.display == m.display && twice.v[0xF] == flag(
            exists|p: int|
                0 <= p < SCREEN_SIZE && !m.display[p] && #[trigger] sprite_covers(
                    m.ram,
                    m.i,
                    m.v[x as int],
                    m.v[y as int],
                    n,
                    p,
                ),
        ),
{
    lemma_draw_twice(m.display, m.ram, m.i, m.v[x as int], m.v[y as int], n);
}

/// The machine after `k` timer ticks with nothing else in between.
pub open spec fn after_ticks(m: Machine, k: nat) -> Machine
    decreases k,
{
    if k == 0 {
        m
    } else {
        after_ticks(m, (k - 1) as nat).tick_timers()
    }
}

/// With no write in between, `k` ticks leave each timer at its old value
/// less `k`, or at zero if it held less, and change nothing else.
pub proof fn lemma_timer_decay(m: Machine, k: nat)
    ensures
        after_ticks(m, k).dt == if m.dt >= k {
            m.dt - k
        } else {
            0
        },
        after_ticks(m, k).st == if m.st >= k {
            m.st - k
        } else {
            0
        },
        after_ticks(m, k) == (Machine { dt: decayed(m.dt, k), st: decayed(m.st, k), ..m }),
    decreases k,
{
    if k > 0 {
        lemma_timer_decay(m, (k - 1) as nat);
    }
}

/// 7XNN changes register X and nothing else, so it never writes a carry to
/// VF; 8XY4 leaves 1 in VF exactly when the sum does not fit in a byte.
pub proof fn lemma_add_flags(m: Machine, x: u8, y: u8, nn: u8, quirks: Quirks, rnd: u8)
    requires
        m.wf(),
        x < 16,
        y < 16,
    ensures
        exec_spec(m, Instruction::Op7XNN(x, nn), quirks, rnd) == Ok::<Machine, Chip8Error>(
            Machine { v: m.v.update(x as int, wrap_u8(m.v[x as int] + nn)), ..m },
        ),
        x != 0xF ==> exec_spec(m, Instruction::Op7XNN(x, nn), quirks, rnd)->Ok_0.v[0xF] == m.v[0xF],
        exec_spec(m, Instruction::Op8XY4(x, y), quirks, rnd) matches Ok(next) && (next.v[0xF] == 1
            <==> m.v[x as int] + m.v[y as int] >= 256) && (next.v[0xF] == 0 <==> m.v[x as int]
            + m.v[y as int] < 256),
{
}

} // verus!
