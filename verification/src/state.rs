//! The mathematical model of the machine: its state as sequences and
//! integers, and the effect of every instruction as a function on states.

use crate::fault::Fault;
use crate::memory::FONTSET_ADDR_INIT;
use crate::opcodes::{decode, Opcode};
use vstd::prelude::*;

verus! {

/// The state of the machine, with each array seen as a sequence.
#[verifier::ext_equal]
pub struct MachineState {
    /// The sixteen general-purpose registers; register 15 is the flag.
    pub reg: Seq<u8>,
    /// The 4096 memory cells.
    pub ram: Seq<u8>,
    /// The index register.
    pub ireg: u16,
    /// The address of the next instruction.
    pub pc: u16,
    /// The sixteen slots for return addresses.
    pub stack: Seq<u16>,
    /// The number of return addresses on the stack.
    pub sp: u8,
    /// The delay timer.
    pub dt: u8,
    /// The sound timer.
    pub st: u8,
    /// The sixteen keys; `true` is pressed.
    pub keys: Seq<bool>,
    /// The 64 by 32 pixels, row by row; `true` is lit.
    pub display: Seq<bool>,
    /// The word fetched last, kept for diagnostics.
    pub opcode: u16,
}

/// `v` reduced to eight bits.
pub open spec fn wrap8(v: int) -> u8 {
    (v % 0x100) as u8
}

/// `v` reduced to sixteen bits.
pub open spec fn wrap16(v: int) -> u16 {
    (v % 0x10000) as u16
}

/// The index of the first pressed key among the keys `from` to 14, if any.
/// Key 15 is never looked at.
pub open spec fn first_pressed(keys: Seq<bool>, from: int) -> Option<u8>
    decreases 15 - from,
{
    if from < 0 || from >= 15 {
        None
    } else if keys[from] {
        Some(from as u8)
    } else {
        first_pressed(keys, from + 1)
    }
}

/// A timer after one tick: one less, held at zero.
pub open spec fn ticked(timer: u8) -> u8 {
    if timer > 0 {
        (timer - 1) as u8
    } else {
        0
    }
}

impl MachineState {
    /// The sizes are those of the machine and the stack holds at most
    /// sixteen addresses.
    pub open spec fn wf(self) -> bool {
        &&& self.reg.len() == 16
        &&& self.ram.len() == 4096
        &&& self.stack.len() == 16
        &&& self.keys.len() == 16
        &&& self.display.len() == 2048
        &&& self.sp <= 16
    }

    /// The state with register `x` set to `v`.
    pub open spec fn with_reg(self, x: u8, v: u8) -> MachineState {
        MachineState { reg: self.reg.update(x as int, v), ..self }
    }

    /// The state with the flag register set to `flag`, then register `x` set
    /// to `v`: where `x` is the flag register itself, `v` stays.
    pub open spec fn with_flag_and_reg(self, flag: u8, x: u8, v: u8) -> MachineState {
        self.with_reg(0xF, flag).with_reg(x, v)
    }

    /// The state with the program counter set to `pc`.
    pub open spec fn with_pc(self, pc: u16) -> MachineState {
        MachineState { pc, ..self }
    }

    /// The state with the next instruction skipped where `cond` holds. The
    /// counter is sixteen bits wide and wraps.
    pub open spec fn skip_if(self, cond: bool) -> MachineState {
        if cond {
            self.with_pc(wrap16(self.pc + 2))
        } else {
            self
        }
    }

    /// The state with `val` pushed on the stack.
    pub open spec fn pushed(self, val: u16) -> MachineState {
        MachineState {
            stack: self.stack.update(self.sp as int, val),
            sp: (self.sp + 1) as u8,
            ..self
        }
    }

    /// The state with the top of the stack taken off. The slot keeps its
    /// content.
    pub open spec fn popped(self) -> MachineState {
        MachineState { sp: (self.sp - 1) as u8, ..self }
    }

    /// The address on top of the stack.
    pub open spec fn top(self) -> u16 {
        self.stack[self.sp - 1]
    }

    /// Bit `col` of row `row` of the sprite at the index register, counted
    /// from the most significant bit.
    pub open spec fn sprite_bit(self, row: int, col: int) -> bool {
        (self.ram[self.ireg + row] >> ((7 - col) as u8)) & 1 == 1
    }

    /// The row of the sprite that falls on the pixel with index `pixel`,
    /// where the sprite is drawn at row `reg[y]`: sprite row `r` falls on
    /// display row `(reg[y] + r) mod 32`.
    pub open spec fn sprite_row(self, y: u8, pixel: int) -> int {
        (pixel / 64 - self.reg[y as int]) % 32
    }

    /// The column of the sprite that falls on the pixel with index `pixel`,
    /// where the sprite is drawn at column `reg[x]`: sprite column `c` falls
    /// on display column `(reg[x] + c) mod 64`.
    pub open spec fn sprite_col(self, x: u8, pixel: int) -> int {
        (pixel % 64 - self.reg[x as int]) % 64
    }

    /// Whether the sprite of `n` rows and eight columns, drawn at column
    /// `reg[x]` and row `reg[y]`, has a set bit on the pixel with index
    /// `pixel`.
    pub open spec fn sprite_covers(self, x: u8, y: u8, n: u8, pixel: int) -> bool {
        let row = self.sprite_row(y, pixel);
        let col = self.sprite_col(x, pixel);
        row < n && col < 8 && self.sprite_bit(row, col)
    }

    /// The index of the pixel on which row `row` and column `col` of the
    /// sprite fall: coordinates wrap at the edges of the display.
    pub open spec fn sprite_cell(self, x: u8, y: u8, row: int, col: int) -> int {
        ((self.reg[y as int] + row) % 32) * 64 + (self.reg[x as int] + col) % 64
    }

    /// Whether drawing the sprite turns off a pixel that is lit.
    pub open spec fn sprite_collides(self, x: u8, y: u8, n: u8) -> bool {
        exists|pixel: int|
            0 <= pixel < 2048 && self.display[pixel] && #[trigger] self.sprite_covers(
                x,
                y,
                n,
                pixel,
            )
    }

    /// The state after drawing the sprite: every covered pixel is flipped,
    /// and the flag register tells whether a lit pixel was turned off.
    pub open spec fn drawn(self, x: u8, y: u8, n: u8) -> MachineState {
        MachineState {
            display: Seq::new(2048, |pixel: int| self.display[pixel] != self.sprite_covers(x, y, n, pixel)),
            reg: self.reg.update(
                0xF,
                if self.sprite_collides(x, y, n) {
                    1u8
                } else {
                    0u8
                },
            ),
            ..self
        }
    }

    /// The state after the three decimal digits of `v` are stored at the
    /// index register: hundreds, tens, units.
    pub open spec fn with_bcd(self, v: u8) -> MachineState {
        MachineState {
            ram: self.ram.update(self.ireg as int, (v / 100) as u8).update(
                self.ireg + 1,
                ((v / 10) % 10) as u8,
            ).update(self.ireg + 2, (v % 10) as u8),
            ..self
        }
    }

    /// The state after registers 0 to `x` are copied to memory at the index
    /// register.
    pub open spec fn registers_stored(self, x: u8) -> MachineState {
        MachineState {
            ram: Seq::new(
                4096,
                |a: int|
                    if self.ireg <= a <= self.ireg + x {
                        self.reg[a - self.ireg]
                    } else {
                        self.ram[a]
                    },
            ),
            ..self
        }
    }

    /// The state after memory at the index register is copied to registers
    /// 0 to `x`.
    pub open spec fn registers_loaded(self, x: u8) -> MachineState {
        MachineState {
            reg: Seq::new(
                16,
                |i: int|
                    if i <= x {
                        self.ram[self.ireg + i]
                    } else {
                        self.reg[i]
                    },
            ),
            ..self
        }
    }

    /// The fault that stops instruction `op` in this state, if any.
    pub open spec fn fault_of(self, op: Opcode) -> Option<Fault> {
        match op {
            Opcode::OP00EE => if self.sp == 0 {
                Some(Fault::StackUnderflow)
            } else {
                None
            },
            Opcode::OP2NNN { nnn } => if self.sp >= 16 {
                Some(Fault::StackOverflow)
            } else {
                None
            },
            Opcode::OPDXYN { x, y, n } => if n > 0 && self.ireg + n > 4096 {
                Some(Fault::OutOfBounds)
            } else {
                None
            },
            Opcode::OPEX9E { x } | Opcode::OPEXA1 { x } => if self.reg[x as int] >= 16 {
                Some(Fault::OutOfBounds)
            } else {
                None
            },
            Opcode::OPFX33 { x } => if self.ireg + 2 >= 4096 {
                Some(Fault::OutOfBounds)
            } else {
                None
            },
            Opcode::OPFX55 { x } | Opcode::OPFX65 { x } => if self.ireg + x >= 4096 {
                Some(Fault::OutOfBounds)
            } else {
                None
            },
            _ => None,
        }
    }

    /// The state after instruction `op`, where no fault stops it. `random`
    /// is the byte that the random instruction draws.
    pub open spec fn after(self, op: Opcode, random: u8) -> MachineState {
        let reg = self.reg;
        match op {
            Opcode::OP00E0 => MachineState { display: Seq::new(2048, |pixel: int| false), ..self },
            Opcode::OP00EE => self.popped().with_pc(self.top()),
            Opcode::OP1NNN { nnn } => self.with_pc(nnn),
            Opcode::OP2NNN { nnn } => self.pushed(self.pc).with_pc(nnn),
            Opcode::OP3XKK { x, kk } => self.skip_if(reg[x as int] == kk),
            Opcode::OP4XKK { x, kk } => self.skip_if(reg[x as int] != kk),
            Opcode::OP5XY0 { x, y } => self.skip_if(reg[x as int] == reg[y as int]),
            Opcode::OP6XKK { x, kk } => self.with_reg(x, kk),
            Opcode::OP7XKK { x, kk } => self.with_reg(x, wrap8(reg[x as int] + kk)),
            Opcode::OP8XY0 { x, y } => self.with_reg(x, reg[y as int]),
            Opcode::OP8XY1 { x, y } => self.with_reg(x, reg[x as int] | reg[y as int]),
            Opcode::OP8XY2 { x, y } => self.with_reg(x, reg[x as int] & reg[y as int]),
            Opcode::OP8XY3 { x, y } => self.with_reg(x, reg[x as int] ^ reg[y as int]),
            Opcode::OP8XY4 { x, y } => self.with_flag_and_reg(
                if reg[x as int] + reg[y as int] > 255 {
                    1
                } else {
                    0
                },
                x,
                wrap8(reg[x as int] + reg[y as int]),
            ),
            Opcode::OP8XY5 { x, y } => self.with_flag_and_reg(
                if reg[x as int] >= reg[y as int] {
                    1
                } else {
                    0
                },
                x,
                wrap8(reg[x as int] - reg[y as int]),
            ),
            Opcode::OP8XY6 { x, y } => {
                let flagged = self.with_reg(0xF, (reg[x as int] % 2) as u8);
                flagged.with_reg(x, flagged.reg[x as int] / 2)
            },
            Opcode::OP8XY7 { x, y } => self.with_flag_and_reg(
                if reg[y as int] >= reg[x as int] {
                    1
                } else {
                    0
                },
                x,
                wrap8(reg[y as int] - reg[x as int]),
            ),
            Opcode::OP8XYE { x, y } => {
                let flagged = self.with_reg(0xF, reg[x as int] / 128);
                flagged.with_reg(x, wrap8(flagged.reg[x as int] * 2))
            },
            Opcode::OP9XY0 { x, y } => self.skip_if(reg[x as int] != reg[y as int]),
            Opcode::OPANNN { nnn } => MachineState { ireg: nnn, ..self },
            Opcode::OPBNNN { nnn } => self.with_pc(wrap16(nnn + reg[0])),
            Opcode::OPCXKK { x, kk } => self.with_reg(x, random & kk),
            Opcode::OPDXYN { x, y, n } => self.drawn(x, y, n),
            Opcode::OPEX9E { x } => self.skip_if(self.keys[reg[x as int] as int]),
            Opcode::OPEXA1 { x } => self.skip_if(!self.keys[reg[x as int] as int]),
            Opcode::OPFX07 { x } => self.with_reg(x, self.dt),
            Opcode::OPFX0A { x } => match first_pressed(self.keys, 0) {
                Some(key) => self.with_reg(x, key),
                None => self.with_pc(wrap16(self.pc - 2)),
            },
            Opcode::OPFX15 { x } => MachineState { dt: reg[x as int], ..self },
            Opcode::OPFX18 { x } => MachineState { st: reg[x as int], ..self },
            Opcode::OPFX1E { x } => MachineState { ireg: wrap16(self.ireg + reg[x as int]), ..self },
            Opcode::OPFX29 { x } => MachineState {
                ireg: (FONTSET_ADDR_INIT + 5 * reg[x as int]) as u16,
                ..self
            },
            Opcode::OPFX33 { x } => self.with_bcd(reg[x as int]),
            Opcode::OPFX55 { x } => self.registers_stored(x),
            Opcode::OPFX65 { x } => self.registers_loaded(x),
        }
    }

    /// The outcome of instruction `op`: the next state, or the fault that
    /// stops it.
    pub open spec fn execute(self, op: Opcode, random: u8) -> Result<MachineState, Fault> {
        match self.fault_of(op) {
            Some(fault) => Err(fault),
            None => Ok(self.after(op, random)),
        }
    }

    /// The state after an attempt at instruction `op`: the next state, or
    /// this one where a fault stops the instruction.
    pub open spec fn attempted(self, op: Opcode, random: u8) -> MachineState {
        match self.execute(op, random) {
            Ok(next) => next,
            Err(_) => self,
        }
    }

    /// Whether the two bytes of an instruction can be fetched at the
    /// program counter.
    pub open spec fn can_fetch(self) -> bool {
        self.pc + 1 < 4096
    }

    /// The word at the program counter, high byte first.
    pub open spec fn word_at_pc(self) -> u16 {
        (self.ram[self.pc as int] * 0x100 + self.ram[self.pc + 1]) as u16
    }

    /// The state after the fetch: the word is recorded and the counter has
    /// moved past it.
    pub open spec fn fetched(self) -> MachineState {
        MachineState { opcode: self.word_at_pc(), pc: (self.pc + 2) as u16, ..self }
    }

    /// The state with both timers ticked.
    pub open spec fn timers_ticked(self) -> MachineState {
        MachineState { dt: ticked(self.dt), st: ticked(self.st), ..self }
    }

    /// The outcome of one cycle: fetch, advance, decode, execute, tick.
    #[verifier::opaque]
    pub open spec fn cycle(self, random: u8) -> Result<MachineState, Fault> {
        if !self.can_fetch() {
            Err(Fault::OutOfBounds)
        } else {
            let fetched = self.fetched();
            match decode(fetched.opcode) {
                None => Err(Fault::UnknownInstruction { word: fetched.opcode, pc: fetched.pc }),
                Some(op) => match fetched.execute(op, random) {
                    Err(fault) => Err(fault),
                    Ok(next) => Ok(next.timers_ticked()),
                },
            }
        }
    }

    /// The state in which a cycle that a fault stops leaves the machine:
    /// untouched where nothing could be fetched, else as the fetch left it.
    pub open spec fn stopped(self) -> MachineState {
        if self.can_fetch() {
            self.fetched()
        } else {
            self
        }
    }

    /// Whether the next cycle runs the random instruction.
    pub open spec fn draws_random(self) -> bool {
        self.can_fetch() && decode(self.word_at_pc()) is Some && decode(
            self.word_at_pc(),
        )->Some_0 is OPCXKK
    }
}

} // verus!
