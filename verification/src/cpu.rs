//! The processor: the fetch, decode and execute cycle and the frame
//! scheduler.
//!
//! A frame samples the keypad, runs a fixed number of cycles and then lets
//! both timers tick once, so that the timers run at the frame rate whatever
//! the number of cycles per frame.

use vstd::prelude::*;
use crate::bit::{word_from_bytes, BitManipulation};
use crate::chip8::{lowest_key_down, Machine, RAM_SIZE};
use crate::emulator::{refused, Emulator};
use crate::error::Chip8Error;
use crate::executor::{agrees, exec_spec};
use crate::instruction::{
    decode_spec, extract_class, extract_high_byte, extract_n, extract_nn, extract_x, extract_y,
    field_class, field_n, field_nn, field_nnn, field_x, field_y, lemma_word_of_fields, Instruction,
    Quirks,
};
use crate::random::random_byte;

verus! {

/// Whether an instruction can be fetched: both of its bytes lie in memory.
pub open spec fn can_fetch(m: Machine) -> bool {
    m.pc + 1 < RAM_SIZE
}

/// The instruction word at the program counter, high byte first.
pub open spec fn fetched_word(m: Machine) -> u16 {
    word_from_bytes(m.ram[m.pc as int], m.ram[m.pc + 1])
}

/// The machine with the program counter moved behind the fetched word.
pub open spec fn after_fetch(m: Machine) -> Machine {
    Machine { pc: (m.pc + 2) as u16, ..m }
}

/// What executing the instruction word `word` does to the machine `m`, in
/// which the program counter already points behind the word.
pub open spec fn exec_word(m: Machine, word: u16, quirks: Quirks, rnd: u8) -> Result<
    Machine,
    Chip8Error,
> {
    match decode_spec(word) {
        Some(ins) => exec_spec(m, ins, quirks, rnd),
        None => Err(Chip8Error::UnknownOpcode),
    }
}

/// One cycle: fetch the word at the program counter, move the program
/// counter behind it, decode and execute. `rnd` is the random byte that
/// CXNN uses.
pub open spec fn step(m: Machine, quirks: Quirks, rnd: u8) -> Result<Machine, Chip8Error> {
    if !can_fetch(m) {
        Err(Chip8Error::IndexFault)
    } else {
        exec_word(after_fetch(m), fetched_word(m), quirks, rnd)
    }
}

/// The word that the processor holds after a cycle on the machine `m`: the
/// word at the program counter if one can be fetched, else the word `held`
/// before.
pub open spec fn word_after_cycle(held: u16, m: Machine) -> u16 {
    if can_fetch(m) {
        fetched_word(m)
    } else {
        held
    }
}

/// Whether executing `word` draws a random byte: only the words of class C
/// do, those of CXNN.
pub open spec fn draws_random(word: u16) -> bool {
    field_class(word) == 0xC
}

/// Whether the next instruction is a wait for a key while no key is down.
pub open spec fn waiting_for_key(m: Machine) -> bool {
    &&& can_fetch(m)
    &&& decode_spec(fetched_word(m)) matches Some(ins)
    &&& ins is OpFX0A
    &&& lowest_key_down(m.keys) is None
}

/// The machine after one cycle for each byte of `rnds`, which supplies the
/// random bytes in order, and the fault that stopped it, if any. After a
/// fault no further cycle runs.
pub open spec fn run_cycles(m: Machine, quirks: Quirks, rnds: Seq<u8>) -> (Machine, Option<
    Chip8Error,
>)
    decreases rnds.len(),
{
    if rnds.len() == 0 {
        (m, None)
    } else {
        let (reached, fault) = run_cycles(m, quirks, rnds.drop_last());
        match fault {
            Some(e) => (reached, Some(e)),
            None => match step(reached, quirks, rnds.last()) {
                Ok(next) => (next, None),
                Err(e) => (reached, Some(e)),
            },
        }
    }
}

/// The machine after one frame: the keypad holds the sampled `keys`, one
/// cycle has run for each byte of `rnds`, and then both timers have ticked
/// once. The fault, if any, stopped the cycles but not the timers.
pub open spec fn run_frame_spec(m: Machine, keys: Seq<bool>, quirks: Quirks, rnds: Seq<u8>) -> (
    Machine,
    Option<Chip8Error>,
) {
    let (reached, fault) = run_cycles(Machine { keys: keys, ..m }, quirks, rnds);
    (reached.tick_timers(), fault)
}

/// A machine that waits for a key stays as it is for a cycle.
pub proof fn lemma_wait_is_fixed_point(m: Machine, quirks: Quirks, rnd: u8)
    requires
        m.wf(),
        waiting_for_key(m),
    ensures
        step(m, quirks, rnd) == Ok::<Machine, Chip8Error>(m),
{
    Instruction::lemma_decode_then_encode(fetched_word(m));
    assert(after_fetch(m).rewind(2) == m);
}

/// Once a fault has stopped the cycles, further cycles change nothing.
pub proof fn lemma_fault_stops_cycles(m: Machine, quirks: Quirks, rnds: Seq<u8>, more: Seq<u8>)
    requires
        run_cycles(m, quirks, rnds).1 is Some,
    ensures
        run_cycles(m, quirks, rnds + more) == run_cycles(m, quirks, rnds),
    decreases more.len(),
{
    if more.len() == 0 {
        assert(rnds + more =~= rnds);
    } else {
        lemma_fault_stops_cycles(m, quirks, rnds, more.drop_last());
        assert((rnds + more).drop_last() =~= rnds + more.drop_last());
    }
}

/// While the machine waits for a key, further cycles change nothing.
pub proof fn lemma_wait_stops_cycles(m: Machine, quirks: Quirks, rnds: Seq<u8>, more: Seq<u8>)
    requires
        run_cycles(m, quirks, rnds).1 is None,
        run_cycles(m, quirks, rnds).0.wf(),
        waiting_for_key(run_cycles(m, quirks, rnds).0),
    ensures
        run_cycles(m, quirks, rnds + more) == run_cycles(m, quirks, rnds),
    decreases more.len(),
{
    if more.len() == 0 {
        assert(rnds + more =~= rnds);
    } else {
        lemma_wait_stops_cycles(m, quirks, rnds, more.drop_last());
        assert((rnds + more).drop_last() =~= rnds + more.drop_last());
        lemma_wait_is_fixed_point(run_cycles(m, quirks, rnds).0, quirks, more.last());
    }
}

/// The processor: the last fetched instruction word and the settings that
/// stay fixed while a program runs.
pub struct CpuController {
    word: u16,
    cycles_per_frame: u32,
    bit_shift_instructions_use_vy: bool,
    store_read_instructions_change_i: bool,
}

impl CpuController {
    /// The last fetched instruction word.
    pub closed spec fn spec_word(&self) -> u16 {
        self.word
    }

    /// The number of cycles that a frame runs.
    pub closed spec fn spec_cycles_per_frame(&self) -> u32 {
        self.cycles_per_frame
    }

    /// The quirks that the processor runs with.
    pub closed spec fn spec_quirks(&self) -> Quirks {
        Quirks {
            shift_uses_vy: self.bit_shift_instructions_use_vy,
            load_store_advances_i: self.store_read_instructions_change_i,
        }
    }

    /// A processor for `emulator` with the given settings, holding the word
    /// at the program counter; a program counter at which no instruction can
    /// be fetched is an index fault.
    pub fn new(
        emulator: &Emulator,
        cycles_per_frame: u32,
        bit_shift_instructions_use_vy: bool,
        store_read_instructions_change_i: bool,
    ) -> (res: Result<Self, Chip8Error>)
        ensures
            match res {
                Ok(cpu) => {
                    &&& can_fetch(emulator@)
                    &&& cpu.spec_word() == fetched_word(emulator@)
                    &&& cpu.spec_cycles_per_frame() == cycles_per_frame
                    &&& cpu.spec_quirks() == (Quirks {
                        shift_uses_vy: bit_shift_instructions_use_vy,
                        load_store_advances_i: store_read_instructions_change_i,
                    })
                },
                Err(e) => !can_fetch(emulator@) && e == Chip8Error::IndexFault,
            },
    {
        let word: u16 = peek_word(emulator)?;
        Ok(
            Self {
                word,
                cycles_per_frame,
                bit_shift_instructions_use_vy,
                store_read_instructions_change_i,
            },
        )
    }

    /// The high byte of the last fetched word.
    pub fn first_byte(&self) -> (byte: u8)
        ensures
            byte == self.spec_word() / 256,
    {
        extract_high_byte(self.word)
    }

    /// The low byte of the last fetched word: the operand NN.
    pub fn second_byte(&self) -> (byte: u8)
        ensures
            byte == field_nn(self.spec_word()),
    {
        extract_nn(self.word)
    }

    /// The first nibble of the last fetched word: the instruction class.
    pub fn first_nibble(&self) -> (nibble: u8)
        ensures
            nibble == field_class(self.spec_word()),
            nibble < 16,
    {
        extract_class(self.word)
    }

    /// The second nibble of the last fetched word: the register number X.
    pub fn x(&self) -> (nibble: u8)
        ensures
            nibble == field_x(self.spec_word()),
            nibble < 16,
    {
        extract_x(self.word)
    }

    /// The third nibble of the last fetched word: the register number Y.
    pub fn y(&self) -> (nibble: u8)
        ensures
            nibble == field_y(self.spec_word()),
            nibble < 16,
    {
        extract_y(self.word)
    }

    /// The last nibble of the last fetched word: the operand N.
    pub fn fourth_nibble(&self) -> (nibble: u8)
        ensures
            nibble == field_n(self.spec_word()),
            nibble < 16,
    {
        extract_n(self.word)
    }

    /// The low 12 bits of the last fetched word: the operand NNN.
    pub fn extract_12bit_address(&self) -> (addr: u16)
        ensures
            addr == field_nnn(self.spec_word()),
            addr < 4096,
    {
        let x: u8 = self.x();
        let y: u8 = self.y();
        let fourth: u8 = self.fourth_nibble();
        proof {
            lemma_word_of_fields(self.word);
        }
        BitManipulation::combine_nibbles_to_16bit_address(x, y, fourth)
    }

    /// The last fetched instruction word; after a cycle that ended in a
    /// fault, the word of the offending instruction.
    pub fn word(&self) -> (word: u16)
        ensures
            word == self.spec_word(),
    {
        self.word
    }

    /// The number of cycles that a frame runs.
    pub fn get_cyples_per_frame(&self) -> (cycles: u32)
        ensures
            cycles == self.spec_cycles_per_frame(),
    {
        self.cycles_per_frame
    }

    /// The quirks that the processor runs with.
    pub fn quirks(&self) -> (quirks: Quirks)
        ensures
            quirks == self.spec_quirks(),
    {
        Quirks {
            shift_uses_vy: self.bit_shift_instructions_use_vy,
            load_store_advances_i: self.store_read_instructions_change_i,
        }
    }

    /// Fetches the word at the program counter and moves the program counter
    /// behind it; a program counter at which no instruction can be fetched
    /// is an index fault, and nothing changes.
    pub fn fetch(&mut self, emulator: &mut Emulator) -> (res: Result<u16, Chip8Error>)
        ensures
            final(emulator)@.wf(),
            final(self).spec_cycles_per_frame() == old(self).spec_cycles_per_frame(),
            final(self).spec_quirks() == old(self).spec_quirks(),
            can_fetch(old(emulator)@) ==> {
                &&& res == Ok::<u16, Chip8Error>(fetched_word(old(emulator)@))
                &&& final(self).spec_word() == fetched_word(old(emulator)@)
                &&& final(emulator)@ == after_fetch(old(emulator)@)
            },
            !can_fetch(old(emulator)@) ==> {
                &&& refused(res, Chip8Error::IndexFault, old(emulator)@, final(emulator)@)
                &&& final(self).spec_word() == old(self).spec_word()
            },
    {
        let word: u16 = peek_word(emulator)?;
        self.word = word;
        emulator.inc_pc_by(2);
        Ok(word)
    }

    /// Decodes and executes the last fetched word; `rnd` is the random byte
    /// that CXNN uses. On a fault the machine is left as it was.
    pub fn exec_instruction_with(&self, emulator: &mut Emulator, rnd: u8) -> (res: Result<
        (),
        Chip8Error,
    >)
        ensures
            final(emulator)@.wf(),
            agrees(
                res,
                old(emulator)@,
                final(emulator)@,
                exec_word(old(emulator)@, self.spec_word(), self.spec_quirks(), rnd),
            ),
    {
        emulator.recall_shape();
        let ins: Instruction = Instruction::decode(self.word)?;
        ins.execute(emulator, self.quirks(), rnd)
    }

    /// Decodes and executes the last fetched word, drawing the random byte
    /// of CXNN itself. Whatever byte was drawn, the machine ends as
    /// `exec_word` says for that byte; for a word that draws none, as it
    /// says for the byte 0.
    pub fn exec_instruction(&self, emulator: &mut Emulator) -> (res: Result<(), Chip8Error>)
        ensures
            final(emulator)@.wf(),
            exists|rnd: u8|
                agrees(
                    res,
                    old(emulator)@,
                    final(emulator)@,
                    #[trigger] exec_word(old(emulator)@, self.spec_word(), self.spec_quirks(), rnd),
                ),
            !draws_random(self.spec_word()) ==> agrees(
                res,
                old(emulator)@,
                final(emulator)@,
                exec_word(old(emulator)@, self.spec_word(), self.spec_quirks(), 0),
            ),
    {
        let rnd: u8 = random_for(self.word);
        self.exec_instruction_with(emulator, rnd)
    }

    /// Runs one cycle; `rnd` is the random byte that CXNN uses. On a fault
    /// the machine is left as it was, the program counter still at the
    /// offending instruction.
    pub fn tick_with(&mut self, emulator: &mut Emulator, rnd: u8) -> (res: Result<(), Chip8Error>)
        ensures
            final(emulator)@.wf(),
            final(self).spec_cycles_per_frame() == old(self).spec_cycles_per_frame(),
            final(self).spec_quirks() == old(self).spec_quirks(),
            final(self).spec_word() == word_after_cycle(old(self).spec_word(), old(emulator)@),
            agrees(
                res,
                old(emulator)@,
                final(emulator)@,
                step(old(emulator)@, old(self).spec_quirks(), rnd),
            ),
    {
        let pc: u16 = emulator.get_pc();
        self.fetch(emulator)?;
        match self.exec_instruction_with(emulator, rnd) {
            Ok(()) => Ok(()),
            Err(e) => {
                emulator.set_pc(pc);
                assert(emulator@ == old(emulator)@);
                Err(e)
            },
        }
    }

    /// Runs one cycle, drawing the random byte of CXNN itself. Whatever byte
    /// was drawn, the machine ends as `step` says for that byte; where the
    /// word at the program counter draws none, or none can be fetched, as
    /// it says for the byte 0.
    pub fn tick(&mut self, emulator: &mut Emulator) -> (res: Result<(), Chip8Error>)
        ensures
            final(emulator)@.wf(),
            final(self).spec_cycles_per_frame() == old(self).spec_cycles_per_frame(),
            final(self).spec_quirks() == old(self).spec_quirks(),
            final(self).spec_word() == word_after_cycle(old(self).spec_word(), old(emulator)@),
            exists|rnd: u8|
                agrees(
                    res,
                    old(emulator)@,
                    final(emulator)@,
                    #[trigger] step(old(emulator)@, old(self).spec_quirks(), rnd),
                ),
            !(can_fetch(old(emulator)@) && draws_random(fetched_word(old(emulator)@))) ==> agrees(
                res,
                old(emulator)@,
                final(emulator)@,
                step(old(emulator)@, old(self).spec_quirks(), 0),
            ),
    {
        let rnd: u8 = match peek_word(emulator) {
            Ok(word) => random_for(word),
            Err(_) => 0,
        };
        self.tick_with(emulator, rnd)
    }

    /// Whether the next instruction is a wait for a key while no key is
    /// down, so that cycles would change nothing.
    pub fn is_waiting(&self, emulator: &Emulator) -> (waiting: bool)
        ensures
            emulator@.wf(),
            waiting == waiting_for_key(emulator@),
    {
        let word: u16 = match peek_word(emulator) {
            Ok(word) => word,
            Err(_) => {
                return false;
            },
        };
        match Instruction::decode(word) {
            Ok(Instruction::OpFX0A(_)) => emulator.check_key_press().is_none(),
            _ => false,
        }
    }

    /// Runs one frame: takes `keys` as the state of the keypad, runs the
    /// cycles of the frame, then lets both timers tick once, and says
    /// whether the buzzer sounds. The cycles end early when the machine
    /// waits for a key, which changes nothing, or on a fault, which is
    /// reported after the timers have ticked.
    pub fn run_frame(&mut self, emulator: &mut Emulator, keys: [bool; 16]) -> (res: Result<
        bool,
        Chip8Error,
    >)
        ensures
            final(emulator)@.wf(),
            final(self).spec_cycles_per_frame() == old(self).spec_cycles_per_frame(),
            final(self).spec_quirks() == old(self).spec_quirks(),
            exists|rnds: Seq<u8>|
                {
                    &&& rnds.len() == old(self).spec_cycles_per_frame()
                    &&& final(emulator)@ == (#[trigger] run_frame_spec(
                        old(emulator)@,
                        keys@,
                        old(self).spec_quirks(),
                        rnds,
                    )).0
                    &&& res == match run_frame_spec(
                        old(emulator)@,
                        keys@,
                        old(self).spec_quirks(),
                        rnds,
                    ).1 {
                        Some(e) => Err::<bool, Chip8Error>(e),
                        None => Ok::<bool, Chip8Error>(final(emulator)@.buzzer()),
                    }
                },
    {
        emulator.set_keys(keys);
        let ghost start = emulator@;
        let ghost quirks = self.spec_quirks();
        let ghost mut rnds: Seq<u8> = Seq::empty();
        let cycles: u32 = self.cycles_per_frame;
        let mut fault: Option<Chip8Error> = None;
        let mut done: u32 = 0;
        while done < cycles
            invariant_except_break
                fault is None ==> rnds.len() == done,
                fault is Some ==> rnds.len() == cycles,
            invariant
                done <= cycles,
                cycles == self.spec_cycles_per_frame(),
                quirks == self.spec_quirks(),
                self.spec_cycles_per_frame() == old(self).spec_cycles_per_frame(),
                self.spec_quirks() == old(self).spec_quirks(),
                emulator@.wf(),
                run_cycles(start, quirks, rnds) == (emulator@, fault),
            ensures
                rnds.len() == cycles,
                self.spec_cycles_per_frame() == old(self).spec_cycles_per_frame(),
                self.spec_quirks() == old(self).spec_quirks(),
                emulator@.wf(),
                run_cycles(start, quirks, rnds) == (emulator@, fault),
            decreases cycles - done,
        {
            if fault.is_some() {
                break ;
            }
            let (stopped, Ghost(used)) = self.cycle(
                emulator,
                Ghost(start),
                Ghost(rnds),
                Ghost((cycles - done) as nat),
            );
            proof {
                rnds = used;
            }
            match stopped {
                Some(Some(e)) => {
                    fault = Some(e);
                },
                Some(None) => {
                    break ;
                },
                None => {},
            }
            done += 1;
        }
        let ghost reached = emulator@;
        emulator.dec_all_timers();
        let res: Result<bool, Chip8Error> = match fault {
            Some(e) => Err(e),
            None => Ok(emulator.buzzer()),
        };
        proof {
            let outcome = run_frame_spec(old(emulator)@, keys@, quirks, rnds);
            assert(outcome == (reached.tick_timers(), fault));
        }
        res
    }

    /// Runs one frame with given random bytes: takes `keys` as the state of
    /// the keypad, runs one cycle for each byte of `rnds`, which the cycle
    /// uses as its random byte, then lets both timers tick once, and says
    /// whether the buzzer sounds. The number of cycles is the number of
    /// bytes, whatever the processor's own setting. A fault ends the cycles
    /// and is reported after the timers have ticked.
    pub fn run_frame_with(
        &mut self,
        emulator: &mut Emulator,
        keys: [bool; 16],
        rnds: &[u8],
    ) -> (res: Result<bool, Chip8Error>)
        ensures
            final(emulator)@.wf(),
            final(self).spec_cycles_per_frame() == old(self).spec_cycles_per_frame(),
            final(self).spec_quirks() == old(self).spec_quirks(),
            final(emulator)@ == run_frame_spec(
                old(emulator)@,
                keys@,
                old(self).spec_quirks(),
                rnds@,
            ).0,
            res == match run_frame_spec(old(emulator)@, keys@, old(self).spec_quirks(), rnds@).1 {
                Some(e) => Err::<bool, Chip8Error>(e),
                None => Ok::<bool, Chip8Error>(final(emulator)@.buzzer()),
            },
    {
        emulator.set_keys(keys);
        let ghost start = emulator@;
        let ghost quirks = self.spec_quirks();
        let mut fault: Option<Chip8Error> = None;
        let mut done: usize = 0;
        proof {
            assert(rnds@.take(0) =~= Seq::<u8>::empty());
            assert(rnds@.take(rnds@.len() as int) =~= rnds@);
        }
        while done < rnds.len()
            invariant_except_break
                fault is None,
                run_cycles(start, quirks, rnds@.take(done as int)) == (emulator@, fault),
            invariant
                done <= rnds@.len(),
                rnds@.take(rnds@.len() as int) == rnds@,
                quirks == self.spec_quirks(),
                self.spec_cycles_per_frame() == old(self).spec_cycles_per_frame(),
                self.spec_quirks() == old(self).spec_quirks(),
                emulator@.wf(),
            ensures
                self.spec_cycles_per_frame() == old(self).spec_cycles_per_frame(),
                self.spec_quirks() == old(self).spec_quirks(),
                emulator@.wf(),
                run_cycles(start, quirks, rnds@) == (emulator@, fault),
            decreases rnds@.len() - done,
        {
            let stopped = self.cycle_with(emulator, Ghost(start), rnds, done);
            match stopped {
                Some(e) => {
                    fault = e;
                    break ;
                },
                None => {},
            }
            done += 1;
        }
        let ghost reached = emulator@;
        emulator.dec_all_timers();
        let res: Result<bool, Chip8Error> = match fault {
            Some(e) => Err(e),
            None => Ok(emulator.buzzer()),
        };
        proof {
            let outcome = run_frame_spec(old(emulator)@, keys@, quirks, rnds@);
            assert(outcome == (reached.tick_timers(), fault));
        }
        res
    }

    /// Runs cycle `done` of a frame with the random bytes `rnds`, after the
    /// cycles before it have taken the machine from `start` to where it is.
    /// Says whether the frame's cycles are over and why: `Some(Some(e))`
    /// after the fault `e`, `Some(None)` when the machine waits for a key,
    /// `None` when the cycle ran.
    fn cycle_with(
        &mut self,
        emulator: &mut Emulator,
        Ghost(start): Ghost<Machine>,
        rnds: &[u8],
        done: usize,
    ) -> (stopped: Option<Option<Chip8Error>>)
        requires
            done < rnds@.len(),
            run_cycles(start, old(self).spec_quirks(), rnds@.take(done as int)) == (
                old(emulator)@,
                None::<Chip8Error>,
            ),
        ensures
            final(emulator)@.wf(),
            final(self).spec_cycles_per_frame() == old(self).spec_cycles_per_frame(),
            final(self).spec_quirks() == old(self).spec_quirks(),
            stopped is None ==> run_cycles(
                start,
                old(self).spec_quirks(),
                rnds@.take(done + 1),
            ) == (final(emulator)@, None::<Chip8Error>),
            stopped matches Some(fault) ==> run_cycles(start, old(self).spec_quirks(), rnds@) == (
                final(emulator)@,
                fault,
            ),
    {
        let ghost quirks = self.spec_quirks();
        let ghost ran = rnds@.take(done as int);
        proof {
            assert(ran + rnds@.skip(done as int) =~= rnds@);
        }
        if self.is_waiting(emulator) {
            proof {
                lemma_wait_stops_cycles(start, quirks, ran, rnds@.skip(done as int));
            }
            return Some(None);
        }
        let ghost before = emulator@;
        let ghost used = rnds@.take(done + 1);
        proof {
            assert(used.drop_last() =~= ran);
            assert(used.last() == rnds@[done as int]);
            assert(used + rnds@.skip(done + 1) =~= rnds@);
        }
        match self.tick_with(emulator, rnds[done]) {
            Ok(()) => None,
            Err(e) => {
                proof {
                    assert(run_cycles(start, quirks, used) == (before, Some(e)));
                    lemma_fault_stops_cycles(start, quirks, used, rnds@.skip(done + 1));
                }
                Some(Some(e))
            },
        }
    }

    /// Runs the next cycle of a frame of which `left` cycles are left, after
    /// the cycles for the random bytes `rnds` have taken the machine from
    /// `start` to where it is. Says whether the frame's cycles are over and
    /// why: `Some(Some(e))` after the fault `e`, `Some(None)` when the
    /// machine waits for a key, `None` when the cycle ran. The random bytes
    /// that come back cover the cycle, and all that are left once the cycles
    /// are over.
    fn cycle(
        &mut self,
        emulator: &mut Emulator,
        Ghost(start): Ghost<Machine>,
        Ghost(rnds): Ghost<Seq<u8>>,
        Ghost(left): Ghost<nat>,
    ) -> (out: (Option<Option<Chip8Error>>, Ghost<Seq<u8>>))
        requires
            left > 0,
            run_cycles(start, old(self).spec_quirks(), rnds) == (
                old(emulator)@,
                None::<Chip8Error>,
            ),
        ensures
            final(emulator)@.wf(),
            final(self).spec_cycles_per_frame() == old(self).spec_cycles_per_frame(),
            final(self).spec_quirks() == old(self).spec_quirks(),
            out.0 is None ==> out.1@.len() == rnds.len() + 1,
            out.0 is Some ==> out.1@.len() == rnds.len() + left,
            out.0 matches Some(Some(e)) ==> run_cycles(start, old(self).spec_quirks(), out.1@) == (
                final(emulator)@,
                Some(e),
            ),
            !(out.0 matches Some(Some(e))) ==> run_cycles(start, old(self).spec_quirks(), out.1@)
                == (final(emulator)@, None::<Chip8Error>),
    {
        let ghost quirks = self.spec_quirks();
        if self.is_waiting(emulator) {
            let ghost more = Seq::new(left, |k: int| 0u8);
            proof {
                lemma_wait_stops_cycles(start, quirks, rnds, more);
            }
            return (Some(None), Ghost(rnds + more));
        }
        let ghost before = emulator@;
        let ticked = self.tick(emulator);
        let ghost rnd = choose|rnd: u8|
            agrees(ticked, before, emulator@, #[trigger] step(before, quirks, rnd));
        let ghost used = rnds.push(rnd);
        proof {
            assert(used.drop_last() =~= rnds);
        }
        match ticked {
            Ok(()) => (None, Ghost(used)),
            Err(e) => {
                let ghost more = Seq::new((left - 1) as nat, |k: int| 0u8);
                proof {
                    assert(run_cycles(start, quirks, used) == (before, Some(e)));
                    lemma_fault_stops_cycles(start, quirks, used, more);
                }
                (Some(Some(e)), Ghost(used + more))
            },
        }
    }
}

/// The word at the program counter, or an index fault if no instruction can
/// be fetched there.
fn peek_word(emulator: &Emulator) -> (res: Result<u16, Chip8Error>)
    ensures
        emulator@.wf(),
        can_fetch(emulator@) ==> res == Ok::<u16, Chip8Error>(fetched_word(emulator@)),
        !can_fetch(emulator@) ==> res == Err::<u16, Chip8Error>(Chip8Error::IndexFault),
{
    let lower_addr: usize = emulator.get_pc() as usize;
    if lower_addr + 1 >= RAM_SIZE {
        return Err(Chip8Error::IndexFault);
    }
    let first_byte: u8 = emulator.get_from_ram(lower_addr)?;
    let second_byte: u8 = emulator.get_from_ram(lower_addr + 1)?;
    Ok(BitManipulation::combine_bytes_to_16bit_instruction(first_byte, second_byte))
}

/// The random byte for executing `word`: 0 for a word of any class but C,
/// which uses none, and a byte drawn at random for a word of class C, of
/// which nothing is known.
fn random_for(word: u16) -> (rnd: u8)
    ensures
        !draws_random(word) ==> rnd == 0,
{
    if extract_class(word) == 0xC {
        random_byte()
    } else {
        0
    }
}

} // verus!
