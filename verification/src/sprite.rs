//! Drawing a sprite on the display.

use crate::cpu::Chip8;
use crate::fault::Fault;
use crate::memory::MEMORY_SIZE;
use crate::state::MachineState;
use vstd::prelude::*;

verus! {

/// Whether the sprite has a set bit on `pixel` in one of its rows before
/// `row`, or in row `row` in a column before `col`.
spec fn covered_before(s: MachineState, x: u8, y: u8, n: u8, row: int, col: int, pixel: int) -> bool {
    let r = s.sprite_row(y, pixel);
    let c = s.sprite_col(x, pixel);
    s.sprite_covers(x, y, n, pixel) && (r < row || (r == row && c < col))
}

/// Whether the part of the sprite before row `row` and column `col` turns
/// off a pixel that is lit.
spec fn collides_before(s: MachineState, x: u8, y: u8, n: u8, row: int, col: int) -> bool {
    exists|pixel: int|
        0 <= pixel < 2048 && s.display[pixel] && #[trigger] covered_before(
            s,
            x,
            y,
            n,
            row,
            col,
            pixel,
        )
}

/// The state with the part of the sprite before row `row` and column `col`
/// drawn.
spec fn drawn_before(s: MachineState, x: u8, y: u8, n: u8, row: int, col: int) -> MachineState {
    MachineState {
        display: Seq::new(
            2048,
            |pixel: int| s.display[pixel] != covered_before(s, x, y, n, row, col, pixel),
        ),
        reg: s.reg.update(
            0xF,
            if collides_before(s, x, y, n, row, col) {
                1u8
            } else {
                0u8
            },
        ),
        ..s
    }
}

/// Row `row` and column `col` of the sprite fall on the pixel in display
/// row `(reg[y] + row) mod 32` and display column `(reg[x] + col) mod 64`,
/// and on no other: that pixel is covered exactly when the bit is set.
pub proof fn lemma_sprite_cell(s: MachineState, x: u8, y: u8, n: u8, row: int, col: int)
    requires
        0 <= row < n,
        0 <= col < 8,
        n < 16,
    ensures
        0 <= s.sprite_cell(x, y, row, col) < 2048,
        s.sprite_row(y, s.sprite_cell(x, y, row, col)) == row,
        s.sprite_col(x, s.sprite_cell(x, y, row, col)) == col,
        s.sprite_covers(x, y, n, s.sprite_cell(x, y, row, col)) == s.sprite_bit(row, col),
        forall|pixel: int|
            0 <= pixel < 2048 && s.sprite_row(y, pixel) == row && s.sprite_col(x, pixel) == col
                ==> pixel == s.sprite_cell(x, y, row, col),
{
    let target = s.sprite_cell(x, y, row, col);
    assert(s.sprite_row(y, target) == row && s.sprite_col(x, target) == col);
    assert forall|pixel: int|
        0 <= pixel < 2048 && s.sprite_row(y, pixel) == row && s.sprite_col(x, pixel)
            == col implies pixel == target by {
        assert(pixel / 64 == (s.reg[y as int] + row) % 32);
        assert(pixel % 64 == (s.reg[x as int] + col) % 64);
    }
}

/// Drawing one more bit of the sprite flips the one pixel under it, where
/// the bit is set, and no other.
proof fn lemma_draw_step(s: MachineState, x: u8, y: u8, n: u8, row: int, col: int)
    requires
        0 <= row < n,
        0 <= col < 8,
        n < 16,
    ensures
        0 <= s.sprite_cell(x, y, row, col) < 2048,
        !covered_before(s, x, y, n, row, col, s.sprite_cell(x, y, row, col)),
        covered_before(s, x, y, n, row, col + 1, s.sprite_cell(x, y, row, col)) == s.sprite_bit(
            row,
            col,
        ),
        forall|pixel: int|
            0 <= pixel < 2048 && pixel != s.sprite_cell(x, y, row, col) ==> covered_before(
                s,
                x,
                y,
                n,
                row,
                col + 1,
                pixel,
            ) == covered_before(s, x, y, n, row, col, pixel),
        collides_before(s, x, y, n, row, col + 1) == (collides_before(s, x, y, n, row, col) || (
        s.display[s.sprite_cell(x, y, row, col)] && s.sprite_bit(row, col))),
{
    let target = s.sprite_cell(x, y, row, col);
    lemma_sprite_cell(s, x, y, n, row, col);
    if collides_before(s, x, y, n, row, col + 1) {
        let witness = choose|pixel: int|
            0 <= pixel < 2048 && s.display[pixel] && #[trigger] covered_before(
                s,
                x,
                y,
                n,
                row,
                col + 1,
                pixel,
            );
        if witness != target {
            assert(covered_before(s, x, y, n, row, col, witness));
        }
    }
    if collides_before(s, x, y, n, row, col) {
        let witness = choose|pixel: int|
            0 <= pixel < 2048 && s.display[pixel] && #[trigger] covered_before(
                s,
                x,
                y,
                n,
                row,
                col,
                pixel,
            );
        assert(covered_before(s, x, y, n, row, col + 1, witness));
    }
    if s.display[target] && s.sprite_bit(row, col) {
        assert(covered_before(s, x, y, n, row, col + 1, target));
    }
}

/// With the eight columns of a row drawn, the next row begins.
proof fn lemma_draw_next_row(s: MachineState, x: u8, y: u8, n: u8, row: int)
    ensures
        drawn_before(s, x, y, n, row, 8) == drawn_before(s, x, y, n, row + 1, 0),
{
    assert forall|pixel: int|
        covered_before(s, x, y, n, row, 8, pixel) == covered_before(
            s,
            x,
            y,
            n,
            row + 1,
            0,
            pixel,
        ) by {}
    assert(collides_before(s, x, y, n, row, 8) == collides_before(s, x, y, n, row + 1, 0)) by {
        if collides_before(s, x, y, n, row, 8) {
            let witness = choose|pixel: int|
                0 <= pixel < 2048 && s.display[pixel] && #[trigger] covered_before(
                    s,
                    x,
                    y,
                    n,
                    row,
                    8,
                    pixel,
                );
            assert(covered_before(s, x, y, n, row + 1, 0, witness));
        }
        if collides_before(s, x, y, n, row + 1, 0) {
            let witness = choose|pixel: int|
                0 <= pixel < 2048 && s.display[pixel] && #[trigger] covered_before(
                    s,
                    x,
                    y,
                    n,
                    row + 1,
                    0,
                    pixel,
                );
            assert(covered_before(s, x, y, n, row, 8, witness));
        }
    }
    assert(drawn_before(s, x, y, n, row, 8).display =~= drawn_before(s, x, y, n, row + 1, 0).display);
}

/// With all its rows drawn, the sprite is drawn.
proof fn lemma_draw_done(s: MachineState, x: u8, y: u8, n: u8)
    ensures
        drawn_before(s, x, y, n, n as int, 0) == s.drawn(x, y, n),
{
    assert forall|pixel: int|
        covered_before(s, x, y, n, n as int, 0, pixel) == s.sprite_covers(x, y, n, pixel) by {}
    assert(collides_before(s, x, y, n, n as int, 0) == s.sprite_collides(x, y, n)) by {
        if collides_before(s, x, y, n, n as int, 0) {
            let witness = choose|pixel: int|
                0 <= pixel < 2048 && s.display[pixel] && #[trigger] covered_before(
                    s,
                    x,
                    y,
                    n,
                    n as int,
                    0,
                    pixel,
                );
            assert(s.sprite_covers(x, y, n, witness));
        }
        if s.sprite_collides(x, y, n) {
            let witness = choose|pixel: int|
                0 <= pixel < 2048 && s.display[pixel] && #[trigger] s.sprite_covers(
                    x,
                    y,
                    n,
                    pixel,
                );
            assert(covered_before(s, x, y, n, n as int, 0, witness));
        }
    }
    assert(drawn_before(s, x, y, n, n as int, 0).display =~= s.drawn(x, y, n).display);
}

impl Chip8 {
    /// Draws the sprite of `n` rows at the index register, at column
    /// `reg[x]` and row `reg[y]`: its set bits flip the pixels they fall on,
    /// and the flag register tells whether a lit pixel was turned off.
    pub(crate) fn draw_sprite(&mut self, x: u8, y: u8, n: u8) -> (res: Result<(), Fault>)
        requires
            x < 16,
            y < 16,
            n < 16,
        ensures
            n == 0 || old(self).ireg + n <= 4096 ==> res is Ok && final(self)@ == old(self)@.drawn(
                x,
                y,
                n,
            ),
            n > 0 && old(self).ireg + n > 4096 ==> res == Err::<(), Fault>(Fault::OutOfBounds)
                && final(self)@ == old(self)@,
    {
        let vx: u8 = self.reg[x as usize];
        let vy: u8 = self.reg[y as usize];
        let base: usize = self.ireg as usize;
        if n > 0 && base + n as usize > MEMORY_SIZE {
            return Err(Fault::OutOfBounds);
        }
        self.reg[0xF] = 0;
        let mut row: u8 = 0;
        while row < n
            invariant
                row <= n,
                n < 16,
                x < 16,
                y < 16,
                vx == old(self).reg@[x as int],
                vy == old(self).reg@[y as int],
                base == old(self).ireg,
                n > 0 ==> base + n <= 4096,
                self@ == drawn_before(old(self)@, x, y, n, row as int, 0),
            decreases n - row,
        {
            let py: usize = (vy.wrapping_add(row) % 32) as usize;
            let sprite_byte: u8 = self.ram[base + row as usize];
            let mut col: u8 = 0;
            while col < 8
                invariant
                    col <= 8,
                    row < n,
                    n < 16,
                    x < 16,
                    y < 16,
                    vx == old(self).reg@[x as int],
                    vy == old(self).reg@[y as int],
                    py == (vy + row) % 32,
                    base == old(self).ireg,
                    base + n <= 4096,
                    sprite_byte == old(self).ram@[base + row],
                    self@ == drawn_before(old(self)@, x, y, n, row as int, col as int),
                decreases 8 - col,
            {
                let px: usize = (vx.wrapping_add(col) % 64) as usize;
                let pindex: usize = py * 64 + px;
                let spixel: u8 = (sprite_byte >> (7 - col)) & 1;
                let ghost start = old(self)@;
                let ghost target = start.sprite_cell(x, y, row as int, col as int);
                proof {
                    lemma_draw_step(start, x, y, n, row as int, col as int);
                    assert(px == (vx + col) % 64);
                    assert(pindex == target);
                    assert((spixel == 1) == start.sprite_bit(row as int, col as int));
                    assert(self.display@[target] == start.display[target]);
                }
                if spixel == 1 {
                    if self.display[pindex] {
                        self.reg[0xF] = 1;
                    }
                    self.display[pindex] = !self.display[pindex];
                }
                proof {
                    let goal = drawn_before(start, x, y, n, row as int, col + 1);
                    assert(self@.display =~= goal.display);
                    assert(self@.reg =~= goal.reg);
                }
                col += 1;
            }
            proof {
                lemma_draw_next_row(old(self)@, x, y, n, row as int);
            }
            row += 1;
        }
        proof {
            lemma_draw_done(old(self)@, x, y, n);
        }
        Ok(())
    }
}

} // verus!
