//! The execution engine: the effect of one instruction on the machine.

use crate::cpu::Chip8;
use crate::fault::Fault;
use crate::memory::{FONTSET_ADDR_INIT, MEMORY_SIZE};
use crate::opcodes::Opcode;
use crate::state::{first_pressed, wrap16, MachineState};
use crate::utils::rand_byte;
use vstd::prelude::*;

verus! {

impl Chip8 {
    /// Waits for a key: the first pressed key among keys 0 to 14 goes to
    /// register `x`; with none pressed the program counter goes back by one
    /// instruction, so that the wait is executed again.
    fn wait_for_key(&mut self, x: u8)
        requires
            x < 16,
        ensures
            final(self)@ == match first_pressed(old(self)@.keys, 0) {
                Some(key) => old(self)@.with_reg(x, key),
                None => old(self)@.with_pc(wrap16(old(self)@.pc - 2)),
            },
    {
        let mut i: usize = 0;
        while i < 15
            invariant
                i <= 15,
                x < 16,
                *self == *old(self),
                first_pressed(self.keys@, 0) == first_pressed(self.keys@, i as int),
            decreases 15 - i,
        {
            if self.keys[i] {
                self.reg[x as usize] = i as u8;
                return ;
            }
            i += 1;
        }
        self.pc = self.pc.wrapping_sub(2);
    }

    /// Copies registers 0 to `x` to memory at the index register.
    fn store_registers(&mut self, x: u8) -> (res: Result<(), Fault>)
        requires
            x < 16,
        ensures
            old(self).ireg + x < 4096 ==> res is Ok && final(self)@ == old(
                self
            )@.registers_stored(x),
            old(self).ireg + x >= 4096 ==> res == Err::<(), Fault>(Fault::OutOfBounds)
                && final(self)@ == old(self)@,
    {
        let base: usize = self.ireg as usize;
        if base + x as usize >= MEMORY_SIZE {
            return Err(Fault::OutOfBounds);
        }
        let mut i: usize = 0;
        while i <= x as usize
            invariant
                i <= x + 1,
                x < 16,
                base == old(self).ireg,
                base + x < 4096,
                self@ == (MachineState {
                    ram: Seq::new(
                        4096,
                        |a: int|
                            if base <= a < base + i {
                                old(self).reg@[a - base]
                            } else {
                                old(self).ram@[a]
                            },
                    ),
                    ..old(self)@
                }),
            decreases x + 1 - i,
        {
            self.ram[base + i] = self.reg[i];
            i += 1;
        }
        Ok(())
    }

    /// Copies memory at the index register to registers 0 to `x`.
    fn load_registers(&mut self, x: u8) -> (res: Result<(), Fault>)
        requires
            x < 16,
        ensures
            old(self).ireg + x < 4096 ==> res is Ok && final(self)@ == old(
                self
            )@.registers_loaded(x),
            old(self).ireg + x >= 4096 ==> res == Err::<(), Fault>(Fault::OutOfBounds)
                && final(self)@ == old(self)@,
    {
        let base: usize = self.ireg as usize;
        if base + x as usize >= MEMORY_SIZE {
            return Err(Fault::OutOfBounds);
        }
        let mut i: usize = 0;
        while i <= x as usize
            invariant
                i <= x + 1,
                x < 16,
                base == old(self).ireg,
                base + x < 4096,
                self@ == (MachineState {
                    reg: Seq::new(
                        16,
                        |r: int|
                            if r < i {
                                old(self).ram@[base + r]
                            } else {
                                old(self).reg@[r]
                            },
                    ),
                    ..old(self)@
                }),
            decreases x + 1 - i,
        {
            self.reg[i] = self.ram[base + i];
            i += 1;
        }
        Ok(())
    }

    /// Executes `opcode`, with `random` as the byte that the random
    /// instruction draws. An instruction that a fault stops leaves the
    /// machine as it was.
    pub fn execute_with(&mut self, opcode: Opcode, random: u8) -> (res: Result<(), Fault>)
        requires
            old(self).wf(),
            opcode.wf(),
        ensures
            final(self).wf(),
            agrees(old(self)@, old(self)@.execute(opcode, random), final(self)@, res),
    {
        match opcode {
            Opcode::OP00E0 => {
                self.display = [false; 2048];
            },
            Opcode::OP00EE => {
                match self.pop() {
                    Ok(addr) => {
                        self.pc = addr;
                    },
                    Err(fault) => {
                        return Err(fault);
                    },
                }
            },
            Opcode::OP1NNN { nnn } => {
                self.pc = nnn;
            },
            Opcode::OP2NNN { nnn } => {
                let ret: u16 = self.pc;
                match self.push(ret) {
                    Ok(()) => {
                        self.pc = nnn;
                    },
                    Err(fault) => {
                        return Err(fault);
                    },
                }
            },
            Opcode::OP3XKK { x, kk } => {
                if self.reg[x as usize] == kk {
                    self.pc = self.pc.wrapping_add(2);
                }
            },
            Opcode::OP4XKK { x, kk } => {
                if self.reg[x as usize] != kk {
                    self.pc = self.pc.wrapping_add(2);
                }
            },
            Opcode::OP5XY0 { x, y } => {
                if self.reg[x as usize] == self.reg[y as usize] {
                    self.pc = self.pc.wrapping_add(2);
                }
            },
            Opcode::OP6XKK { x, kk } => {
                self.reg[x as usize] = kk;
            },
            Opcode::OP7XKK { x, kk } => {
                self.reg[x as usize] = self.reg[x as usize].wrapping_add(kk);
            },
            Opcode::OP8XY0 { x, y } => {
                self.reg[x as usize] = self.reg[y as usize];
            },
            Opcode::OP8XY1 { x, y } => {
                self.reg[x as usize] = self.reg[x as usize] | self.reg[y as usize];
            },
            Opcode::OP8XY2 { x, y } => {
                self.reg[x as usize] = self.reg[x as usize] & self.reg[y as usize];
            },
            Opcode::OP8XY3 { x, y } => {
                self.reg[x as usize] = self.reg[x as usize] ^ self.reg[y as usize];
            },
            Opcode::OP8XY4 { x, y } => {
                let vx: u8 = self.reg[x as usize];
                let vy: u8 = self.reg[y as usize];
                let carry: bool = vx as u16 + vy as u16 > 255;
                self.reg[0xF] = if carry {
                    1
                } else {
                    0
                };
                self.reg[x as usize] = vx.wrapping_add(vy);
            },
            Opcode::OP8XY5 { x, y } => {
                let vx: u8 = self.reg[x as usize];
                let vy: u8 = self.reg[y as usize];
                let borrow: bool = vx < vy;
                self.reg[0xF] = if borrow {
                    0
                } else {
                    1
                };
                self.reg[x as usize] = vx.wrapping_sub(vy);
            },
            Opcode::OP8XY6 { x, y } => {
                let vx: u8 = self.reg[x as usize];
                assert(vx & 0x1 == vx % 2) by (bit_vector);
                self.reg[0xF] = vx & 0x1;
                let flagged: u8 = self.reg[x as usize];
                assert(flagged >> 1 == flagged / 2) by (bit_vector);
                self.reg[x as usize] = flagged >> 1;
            },
            Opcode::OP8XY7 { x, y } => {
                let vx: u8 = self.reg[x as usize];
                let vy: u8 = self.reg[y as usize];
                let borrow: bool = vy < vx;
                self.reg[0xF] = if borrow {
                    0
                } else {
                    1
                };
                self.reg[x as usize] = vy.wrapping_sub(vx);
            },
            Opcode::OP8XYE { x, y } => {
                let vx: u8 = self.reg[x as usize];
                assert((vx & 0x80) >> 7 == vx / 128) by (bit_vector);
                self.reg[0xF] = (vx & 0x80) >> 7;
                let flagged: u8 = self.reg[x as usize];
                assert(flagged << 1 == (flagged * 2) % 0x100) by (bit_vector);
                self.reg[x as usize] = flagged << 1;
            },
            Opcode::OP9XY0 { x, y } => {
                if self.reg[x as usize] != self.reg[y as usize] {
                    self.pc = self.pc.wrapping_add(2);
                }
            },
            Opcode::OPANNN { nnn } => {
                self.ireg = nnn;
            },
            Opcode::OPBNNN { nnn } => {
                self.pc = nnn + self.reg[0] as u16;
            },
            Opcode::OPCXKK { x, kk } => {
                self.reg[x as usize] = random & kk;
            },
            Opcode::OPDXYN { x, y, n } => {
                return self.draw_sprite(x, y, n);
            },
            Opcode::OPEX9E { x } => {
                let key: u8 = self.reg[x as usize];
                if key >= 16 {
                    return Err(Fault::OutOfBounds);
                }
                if self.keys[key as usize] {
                    self.pc = self.pc.wrapping_add(2);
                }
            },
            Opcode::OPEXA1 { x } => {
                let key: u8 = self.reg[x as usize];
                if key >= 16 {
                    return Err(Fault::OutOfBounds);
                }
                if !self.keys[key as usize] {
                    self.pc = self.pc.wrapping_add(2);
                }
            },
            Opcode::OPFX07 { x } => {
                self.reg[x as usize] = self.dt;
            },
            Opcode::OPFX0A { x } => {
                self.wait_for_key(x);
            },
            Opcode::OPFX15 { x } => {
                self.dt = self.reg[x as usize];
            },
            Opcode::OPFX18 { x } => {
                self.st = self.reg[x as usize];
            },
            Opcode::OPFX1E { x } => {
                self.ireg = self.ireg.wrapping_add(self.reg[x as usize] as u16);
            },
            Opcode::OPFX29 { x } => {
                self.ireg = FONTSET_ADDR_INIT + 5 * (self.reg[x as usize] as u16);
            },
            Opcode::OPFX33 { x } => {
                let base: usize = self.ireg as usize;
                if base + 2 >= MEMORY_SIZE {
                    return Err(Fault::OutOfBounds);
                }
                let mut val: u8 = self.reg[x as usize];
                self.ram[base + 2] = val % 10;
                val = val / 10;
                self.ram[base + 1] = val % 10;
                val = val / 10;
                self.ram[base] = val % 10;
            },
            Opcode::OPFX55 { x } => {
                return self.store_registers(x);
            },
            Opcode::OPFX65 { x } => {
                return self.load_registers(x);
            },
        }
        Ok(())
    }

    /// Executes `opcode`. The random instruction draws its byte from
    /// `rand_byte`, so of its outcome only this is known: some byte gives
    /// it. Every other instruction has the one outcome that the model gives.
    pub fn execute(&mut self, opcode: Opcode) -> (res: Result<(), Fault>)
        requires
            old(self).wf(),
            opcode.wf(),
        ensures
            final(self).wf(),
            exists|random: u8|
                agrees(
                    old(self)@,
                    #[trigger] old(self)@.execute(opcode, random),
                    final(self)@,
                    res,
                ),
            !(opcode is OPCXKK) ==> agrees(
                old(self)@,
                old(self)@.execute(opcode, 0),
                final(self)@,
                res,
            ),
    {
        let random: u8 = match opcode {
            Opcode::OPCXKK { .. } => rand_byte(),
            _ => 0,
        };
        let res = self.execute_with(opcode, random);
        assert(agrees(old(self)@, old(self)@.execute(opcode, random), self@, res));
        res
    }
}

/// Whether the machine went from `before` to `after` and reported `res` as
/// `outcome` says: on success it is in the next state, and a fault leaves it
/// as it was.
pub open spec fn agrees(
    before: MachineState,
    outcome: Result<MachineState, Fault>,
    after: MachineState,
    res: Result<(), Fault>,
) -> bool {
    match outcome {
        Ok(next) => res is Ok && after =~= next,
        Err(fault) => res == Err::<(), Fault>(fault) && after =~= before,
    }
}

} // verus!
