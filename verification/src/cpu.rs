//! The machine itself: its state, the stack, the loaders, the decoder and
//! the cycle driver.

use crate::engine::agrees;
use crate::fault::Fault;
use crate::memory;
use crate::memory::{overlaid, ADDR_INIT, FONTSET, FONTSET_ADDR_INIT, MEMORY_SIZE};
use crate::opcodes::{decode, kk_of, lead_of, n_of, nnn_of, x_of, y_of, Opcode};
use crate::state::MachineState;
use vstd::prelude::*;

verus! {

/// The state of the machine.
#[derive(Clone, Debug)]
pub struct Chip8 {
    /// The sixteen general-purpose registers; register 15 is the flag.
    pub reg: [u8; 16],
    /// The memory.
    pub ram: [u8; 4096],
    /// The index register.
    pub ireg: u16,
    /// The address of the next instruction.
    pub pc: u16,
    /// The return addresses.
    pub stack: [u16; 16],
    /// The number of return addresses on the stack.
    pub sp: u8,
    /// The delay timer.
    pub dt: u8,
    /// The sound timer.
    pub st: u8,
    /// The sixteen keys; `true` is pressed.
    pub keys: [bool; 16],
    /// The 64 by 32 pixels, row by row; `true` is lit.
    pub display: [bool; 2048],
    /// The word fetched last, kept for diagnostics.
    pub opcode: u16,
}

impl View for Chip8 {
    type V = MachineState;

    open spec fn view(&self) -> MachineState {
        MachineState {
            reg: self.reg@,
            ram: self.ram@,
            ireg: self.ireg,
            pc: self.pc,
            stack: self.stack@,
            sp: self.sp,
            dt: self.dt,
            st: self.st,
            keys: self.keys@,
            display: self.display@,
            opcode: self.opcode,
        }
    }
}

impl Chip8 {
    /// The stack holds at most sixteen return addresses.
    pub open spec fn wf(&self) -> bool {
        self.sp <= 16
    }

    /// A machine with everything at zero and the program counter at the
    /// program start.
    pub fn new() -> (chip8: Chip8)
        ensures
            chip8.wf(),
            chip8@ == (MachineState {
                reg: Seq::new(16, |i: int| 0u8),
                ram: Seq::new(4096, |i: int| 0u8),
                ireg: 0,
                pc: ADDR_INIT,
                stack: Seq::new(16, |i: int| 0u16),
                sp: 0,
                dt: 0,
                st: 0,
                keys: Seq::new(16, |i: int| false),
                display: Seq::new(2048, |i: int| false),
                opcode: 0,
            }),
    {
        Chip8 {
            reg: [0; 16],
            ram: [0; 4096],
            ireg: 0,
            pc: ADDR_INIT,
            stack: [0; 16],
            sp: 0,
            dt: 0,
            st: 0,
            keys: [false; 16],
            display: [false; 2048],
            opcode: 0,
        }
    }

    /// Pushes `val` on the stack. A full stack is left as it is.
    pub fn push(&mut self, val: u16) -> (res: Result<(), Fault>)
        requires
            old(self).wf(),
        ensures
            final(self).wf(),
            old(self).sp < 16 ==> res is Ok && final(self)@ == old(self)@.pushed(val),
            old(self).sp == 16 ==> res == Err::<(), Fault>(Fault::StackOverflow) && final(self)@
                == old(self)@,
    {
        if self.sp == 16 {
            return Err(Fault::StackOverflow);
        }
        self.stack[self.sp as usize] = val;
        self.sp += 1;
        Ok(())
    }

    /// Takes the top of the stack off and returns it. An empty stack is left
    /// as it is.
    pub fn pop(&mut self) -> (res: Result<u16, Fault>)
        requires
            old(self).wf(),
        ensures
            final(self).wf(),
            old(self).sp > 0 ==> res == Ok::<u16, Fault>(old(self)@.top()) && final(self)@
                == old(self)@.popped(),
            old(self).sp == 0 ==> res == Err::<u16, Fault>(Fault::StackUnderflow) && final(self)@
                == old(self)@,
    {
        if self.sp == 0 {
            return Err(Fault::StackUnderflow);
        }
        self.sp -= 1;
        Ok(self.stack[self.sp as usize])
    }

    /// Copies the program `rom` verbatim into memory from the program start
    /// on. A program that does not fit is refused and memory stays as it
    /// was.
    pub fn load_rom(&mut self, rom: &[u8]) -> (res: Result<(), Fault>)
        ensures
            final(self).wf() == old(self).wf(),
            rom@.len() <= MEMORY_SIZE - ADDR_INIT ==> res is Ok && final(self)@ == (MachineState {
                ram: overlaid(old(self)@.ram, ADDR_INIT as int, rom@),
                ..old(self)@
            }),
            rom@.len() > MEMORY_SIZE - ADDR_INIT ==> res == Err::<(), Fault>(Fault::OutOfBounds)
                && final(self)@ == old(self)@,
    {
        memory::load_rom(&mut self.ram, rom)
    }

    /// Installs the font at the font start.
    pub fn load_fontset(&mut self)
        ensures
            final(self).wf() == old(self).wf(),
            final(self)@ == (MachineState {
                ram: overlaid(old(self)@.ram, FONTSET_ADDR_INIT as int, FONTSET@),
                ..old(self)@
            }),
    {
        memory::load_fontset(&mut self.ram, &FONTSET);
    }

    /// Decodes the word `opcode`: the instruction it stands for, or `None`
    /// where it stands for none.
    pub fn decode_opcode(&self, opcode: u16) -> (res: Option<Opcode>)
        ensures
            res == decode(opcode),
            res matches Some(op) ==> op.wf() && op.encode() == opcode,
            res is None ==> forall|op: Opcode| op.wf() ==> op.encode() != opcode,
    {
        let x: u8 = x_of(opcode);
        let y: u8 = y_of(opcode);
        let n: u8 = n_of(opcode);
        let kk: u8 = kk_of(opcode);
        let nnn: u16 = nnn_of(opcode);
        let res = match lead_of(opcode) {
            0x0 => match opcode {
                0x00E0 => Some(Opcode::OP00E0),
                0x00EE => Some(Opcode::OP00EE),
                _ => None,
            },
            0x1 => Some(Opcode::OP1NNN { nnn }),
            0x2 => Some(Opcode::OP2NNN { nnn }),
            0x3 => Some(Opcode::OP3XKK { x, kk }),
            0x4 => Some(Opcode::OP4XKK { x, kk }),
            0x5 => match n {
                0x0 => Some(Opcode::OP5XY0 { x, y }),
                _ => None,
            },
            0x6 => Some(Opcode::OP6XKK { x, kk }),
            0x7 => Some(Opcode::OP7XKK { x, kk }),
            0x8 => match n {
                0x0 => Some(Opcode::OP8XY0 { x, y }),
                0x1 => Some(Opcode::OP8XY1 { x, y }),
                0x2 => Some(Opcode::OP8XY2 { x, y }),
                0x3 => Some(Opcode::OP8XY3 { x, y }),
                0x4 => Some(Opcode::OP8XY4 { x, y }),
                0x5 => Some(Opcode::OP8XY5 { x, y }),
                0x6 => Some(Opcode::OP8XY6 { x, y }),
                0x7 => Some(Opcode::OP8XY7 { x, y }),
                0xE => Some(Opcode::OP8XYE { x, y }),
                _ => None,
            },
            0x9 => match n {
                0x0 => Some(Opcode::OP9XY0 { x, y }),
                _ => None,
            },
            0xA => Some(Opcode::OPANNN { nnn }),
            0xB => Some(Opcode::OPBNNN { nnn }),
            0xC => Some(Opcode::OPCXKK { x, kk }),
            0xD => Some(Opcode::OPDXYN { x, y, n }),
            0xE => match kk {
                0x9E => Some(Opcode::OPEX9E { x }),
                0xA1 => Some(Opcode::OPEXA1 { x }),
                _ => None,
            },
            0xF => match kk {
                0x07 => Some(Opcode::OPFX07 { x }),
                0x0A => Some(Opcode::OPFX0A { x }),
                0x15 => Some(Opcode::OPFX15 { x }),
                0x18 => Some(Opcode::OPFX18 { x }),
                0x1E => Some(Opcode::OPFX1E { x }),
                0x29 => Some(Opcode::OPFX29 { x }),
                0x33 => Some(Opcode::OPFX33 { x }),
                0x55 => Some(Opcode::OPFX55 { x }),
                0x65 => Some(Opcode::OPFX65 { x }),
                _ => None,
            },
            _ => None,
        };
        proof {
            crate::opcodes::lemma_decode_sound(opcode);
            if res is None {
                assert forall|op: Opcode| op.wf() implies op.encode() != opcode by {
                    if op.encode() == opcode {
                        crate::opcodes::lemma_decode_complete(op);
                    }
                }
            }
        }
        res
    }

    /// Fetches the word at the program counter, moves the counter past it
    /// and decodes the word. Where the counter leaves no room for a word in
    /// memory, nothing changes; a word that is no instruction stays
    /// recorded.
    fn fetch(&mut self) -> (res: Result<Opcode, Fault>)
        ensures
            final(self).wf() == old(self).wf(),
            final(self)@ == old(self)@.stopped(),
            !old(self)@.can_fetch() ==> res == Err::<Opcode, Fault>(Fault::OutOfBounds),
            old(self)@.can_fetch() ==> match decode(final(self).opcode) {
                Some(op) => res == Ok::<Opcode, Fault>(op) && op.wf(),
                None => res == Err::<Opcode, Fault>(
                    Fault::UnknownInstruction { word: final(self).opcode, pc: final(self).pc },
                ),
            },
    {
        let pc: usize = self.pc as usize;
        if pc + 1 >= MEMORY_SIZE {
            return Err(Fault::OutOfBounds);
        }
        let high: u8 = self.ram[pc];
        let low: u8 = self.ram[pc + 1];
        assert((high as u16) << 8 | low as u16 == high * 0x100 + low) by (bit_vector);
        self.opcode = (high as u16) << 8 | low as u16;
        self.pc += 2;
        match self.decode_opcode(self.opcode) {
            Some(op) => Ok(op),
            None => Err(Fault::UnknownInstruction { word: self.opcode, pc: self.pc }),
        }
    }

    /// Ticks both timers: each goes down by one and stays at zero.
    fn tick(&mut self)
        ensures
            final(self).wf() == old(self).wf(),
            final(self)@ == old(self)@.timers_ticked(),
    {
        if self.dt > 0 {
            self.dt -= 1;
        }
        if self.st > 0 {
            self.st -= 1;
        }
    }

    /// Runs one cycle with `random` as the byte that the random instruction
    /// draws: fetch, advance, decode, execute, tick. A cycle that a fault
    /// stops leaves the machine as the fetch left it, with the timers not
    /// ticked.
    pub fn cycle_with(&mut self, random: u8) -> (res: Result<(), Fault>)
        requires
            old(self).wf(),
        ensures
            final(self).wf(),
            cycled(old(self)@, old(self)@.cycle(random), final(self)@, res),
    {
        reveal(MachineState::cycle);
        let opcode = match self.fetch() {
            Ok(opcode) => opcode,
            Err(fault) => {
                return Err(fault);
            },
        };
        match self.execute_with(opcode, random) {
            Ok(()) => {},
            Err(fault) => {
                return Err(fault);
            },
        }
        self.tick();
        Ok(())
    }

    /// Runs one cycle: fetch, advance, decode, execute, tick. The random
    /// instruction draws its byte from `rand_byte`, so of a cycle that runs
    /// it only this is known: some byte gives its outcome. Every other cycle
    /// has the one outcome that the model gives.
    pub fn cycle(&mut self) -> (res: Result<(), Fault>)
        requires
            old(self).wf(),
        ensures
            final(self).wf(),
            exists|random: u8|
                cycled(old(self)@, #[trigger] old(self)@.cycle(random), final(self)@, res),
            !old(self)@.draws_random() ==> cycled(
                old(self)@,
                old(self)@.cycle(0),
                final(self)@,
                res,
            ),
    {
        reveal(MachineState::cycle);
        let opcode = match self.fetch() {
            Ok(opcode) => opcode,
            Err(fault) => {
                assert(cycled(old(self)@, old(self)@.cycle(0), self@, Err(fault)));
                return Err(fault);
            },
        };
        let ghost fetched = self@;
        match self.execute(opcode) {
            Ok(()) => {},
            Err(fault) => {
                proof {
                    let random = choose|random: u8|
                        agrees(fetched, #[trigger] fetched.execute(opcode, random), self@, Err(fault));
                    assert(cycled(old(self)@, old(self)@.cycle(random), self@, Err(fault)));
                }
                return Err(fault);
            },
        }
        let ghost executed = self@;
        self.tick();
        proof {
            let random = choose|random: u8|
                agrees(fetched, #[trigger] fetched.execute(opcode, random), executed, Ok(()));
            assert(cycled(old(self)@, old(self)@.cycle(random), self@, Ok(())));
        }
        Ok(())
    }
}

/// Whether a cycle took the machine from `before` to `after` and reported
/// `res` as `outcome` says: on success it is in the next state, and a fault
/// leaves it as the fetch left it.
pub open spec fn cycled(
    before: MachineState,
    outcome: Result<MachineState, Fault>,
    after: MachineState,
    res: Result<(), Fault>,
) -> bool {
    match outcome {
        Ok(next) => res is Ok && after =~= next,
        Err(fault) => res == Err::<(), Fault>(fault) && after =~= before.stopped(),
    }
}

} // verus!
