//! What holds of the instructions taken together.

use crate::opcodes::{decode, Opcode};
use crate::state::{wrap8, MachineState};
use vstd::prelude::*;

verus! {

/// Executing an instruction keeps the machine well-formed.
pub proof fn lemma_execute_keeps_wf(s: MachineState, op: Opcode, random: u8)
    requires
        s.wf(),
        op.wf(),
    ensures
        s.execute(op, random) matches Ok(next) ==> next.wf(),
{
}

/// The random byte matters to the random instruction alone: every other
/// instruction has the same outcome whatever the byte, and so has every
/// cycle that does not run the random instruction.
pub proof fn lemma_random_matters_to_one_instruction(
    s: MachineState,
    op: Opcode,
    random: u8,
    other: u8,
)
    ensures
        !(op is OPCXKK) ==> s.execute(op, random) == s.execute(op, other),
        !s.draws_random() ==> s.cycle(random) == s.cycle(other),
{
    reveal(MachineState::cycle);
}

/// Adding `kk` and then `back` to register `x` always succeeds, and leaves
/// the register, and with it the whole machine, as it was exactly when
/// `kk + back` is a multiple of 256. So the byte that undoes the addition
/// of `kk` is its complement `(256 - kk) mod 256`.
pub proof fn lemma_add_immediate_closure(s: MachineState, x: u8, kk: u8, back: u8)
    requires
        s.wf(),
        x < 16,
    ensures
        s.execute(Opcode::OP7XKK { x, kk }, 0) is Ok,
        s.execute(Opcode::OP7XKK { x, kk }, 0)->Ok_0.execute(Opcode::OP7XKK { x, kk: back }, 0) is Ok,
        ({
            let end = s.execute(Opcode::OP7XKK { x, kk }, 0)->Ok_0.execute(
                Opcode::OP7XKK { x, kk: back },
                0,
            )->Ok_0;
            &&& end.reg[x as int] == wrap8(s.reg[x as int] + kk + back)
            &&& end.reg[x as int] == s.reg[x as int] <==> (kk + back) % 0x100 == 0
            &&& end == s <==> (kk + back) % 0x100 == 0
            &&& back == wrap8(0x100 - kk) ==> end == s
        }),
{
    let mid = s.execute(Opcode::OP7XKK { x, kk }, 0)->Ok_0;
    let end = mid.execute(Opcode::OP7XKK { x, kk: back }, 0)->Ok_0;
    let v = s.reg[x as int];
    assert(end.reg[x as int] == wrap8(v + kk + back));
    if (kk + back) % 0x100 == 0 {
        assert(end.reg =~= s.reg);
        assert(end =~= s);
    }
}

/// Storing registers 0 to `x` and loading them again, with nothing in
/// between, succeeds or fails together, and leaves every register as it
/// was.
pub proof fn lemma_store_load_round_trip(s: MachineState, x: u8)
    requires
        s.wf(),
        x < 16,
    ensures
        s.execute(Opcode::OPFX55 { x }, 0) is Ok <==> s.ireg + x < 4096,
        s.execute(Opcode::OPFX55 { x }, 0) matches Ok(stored) ==> {
            &&& stored.execute(Opcode::OPFX65 { x }, 0) is Ok
            &&& stored.execute(Opcode::OPFX65 { x }, 0)->Ok_0.reg == s.reg
            &&& stored.execute(Opcode::OPFX65 { x }, 0)->Ok_0 == stored
        },
{
    if s.ireg + x < 4096 {
        let stored = s.execute(Opcode::OPFX55 { x }, 0)->Ok_0;
        let loaded = stored.execute(Opcode::OPFX65 { x }, 0)->Ok_0;
        assert(loaded.reg =~= s.reg);
        assert(loaded =~= stored);
    }
}

/// A cycle that runs "skip if register `x` equals `kk`" succeeds and moves
/// the program counter by four from where the word was fetched if the
/// register holds `kk`, and by two if it does not.
pub proof fn lemma_skip_equal_advance(s: MachineState, x: u8, kk: u8, random: u8)
    requires
        s.wf(),
        s.can_fetch(),
        decode(s.word_at_pc()) == Some(Opcode::OP3XKK { x, kk }),
    ensures
        s.cycle(random) is Ok,
        s.reg[x as int] == kk ==> s.cycle(random)->Ok_0.pc == s.pc + 4,
        s.reg[x as int] != kk ==> s.cycle(random)->Ok_0.pc == s.pc + 2,
{
    reveal(MachineState::cycle);
}

/// The state after the calls `calls`, made one after the other from `s`.
/// Each call is a pair: the program counter at the moment of the call, which
/// is the return address, and the address called.
pub open spec fn after_calls(s: MachineState, calls: Seq<(u16, u16)>) -> MachineState
    decreases calls.len(),
{
    if calls.len() == 0 {
        s
    } else {
        after_calls(s, calls.drop_last()).with_pc(calls.last().0).execute(
            Opcode::OP2NNN { nnn: calls.last().1 },
            0,
        )->Ok_0
    }
}

/// The state after `count` returns, made one after the other from `s`.
pub open spec fn after_returns(s: MachineState, count: nat) -> MachineState
    decreases count,
{
    if count == 0 {
        s
    } else {
        after_returns(s, (count - 1) as nat).execute(Opcode::OP00EE, 0)->Ok_0
    }
}

/// Calls that the stack has room for all succeed; each puts its return
/// address on the stack and touches nothing but the stack and the program
/// counter.
pub proof fn lemma_calls_stack_up(s: MachineState, calls: Seq<(u16, u16)>)
    requires
        s.wf(),
        s.sp + calls.len() <= 16,
    ensures
        after_calls(s, calls).wf(),
        after_calls(s, calls).sp == s.sp + calls.len(),
        forall|i: int|
            0 <= i < calls.len() ==> after_calls(s, calls).stack[s.sp + i] == (#[trigger] calls[i]).0,
        forall|i: int| 0 <= i < s.sp ==> after_calls(s, calls).stack[i] == s.stack[i],
        calls.len() > 0 ==> after_calls(s, calls.drop_last()).with_pc(calls.last().0).execute(
            Opcode::OP2NNN { nnn: calls.last().1 },
            0,
        ) is Ok,
        after_calls(s, calls) == (MachineState {
            pc: after_calls(s, calls).pc,
            stack: after_calls(s, calls).stack,
            sp: after_calls(s, calls).sp,
            ..s
        }),
    decreases calls.len(),
{
    if calls.len() > 0 {
        lemma_calls_stack_up(s, calls.drop_last());
        let before = after_calls(s, calls.drop_last());
        assert forall|i: int| 0 <= i < calls.len() implies after_calls(s, calls).stack[s.sp + i] == (
        #[trigger] calls[i]).0 by {
            if i < calls.len() - 1 {
                assert(calls.drop_last()[i] == calls[i]);
            }
        }
    }
}

/// Call and return are inverse to each other. After calls that the stack
/// has room for, as many returns all succeed; they come back to the return
/// addresses of the calls, the last call's first, and the last of them
/// leaves the stack pointer where it was before the first call. Nothing
/// else has changed but the slots of the stack above it.
pub proof fn lemma_calls_then_returns(s: MachineState, calls: Seq<(u16, u16)>, count: nat)
    requires
        s.wf(),
        s.sp + calls.len() <= 16,
        1 <= count <= calls.len(),
    ensures
        after_returns(after_calls(s, calls), (count - 1) as nat).execute(Opcode::OP00EE, 0) is Ok,
        after_returns(after_calls(s, calls), count).pc == calls[calls.len() - count].0,
        after_returns(after_calls(s, calls), count).sp == s.sp + calls.len() - count,
        after_returns(after_calls(s, calls), count) == (MachineState {
            pc: calls[calls.len() - count].0,
            sp: (s.sp + calls.len() - count) as u8,
            stack: after_calls(s, calls).stack,
            ..s
        }),
        count == calls.len() ==> after_returns(after_calls(s, calls), count).sp == s.sp,
    decreases count,
{
    lemma_calls_stack_up(s, calls);
    if count > 1 {
        lemma_calls_then_returns(s, calls, (count - 1) as nat);
    }
    let called = after_calls(s, calls);
    let before = after_returns(called, (count - 1) as nat);
    assert(before.sp == s.sp + calls.len() - count + 1);
    assert(before.stack == called.stack);
    assert(before.top() == calls[calls.len() - count].0);
}

/// Whether a second draw of the sprite falls where the first fell. The
/// first draw writes the flag register, so where the column or the row is
/// read from the flag register, the second draw falls at column or row 0:
/// the same place only if the first fell there too.
pub open spec fn redraw_aligned(s: MachineState, x: u8, y: u8) -> bool {
    &&& x == 0xF ==> s.reg[0xF] % 64 == 0
    &&& y == 0xF ==> s.reg[0xF] % 32 == 0
}

/// Whether the sprite has no set bit on any pixel.
pub open spec fn sprite_blank(s: MachineState, x: u8, y: u8, n: u8) -> bool {
    forall|pixel: int| 0 <= pixel < 2048 ==> !#[trigger] s.sprite_covers(x, y, n, pixel)
}

/// Drawing is its own inverse. On a cleared display, a draw followed by the
/// same draw leaves every pixel dark again, and the second draw sets the
/// flag register to 1 if the first lit any pixel, to 0 if it lit none. This
/// holds where the second draw falls where the first fell, or the sprite is
/// blank. A sprite that reaches past the end of memory is not drawn, and
/// the display stays dark.
pub proof fn lemma_draw_twice_clears(s: MachineState, x: u8, y: u8, n: u8)
    requires
        s.wf(),
        x < 16,
        y < 16,
        n < 16,
        redraw_aligned(s, x, y) || sprite_blank(s, x, y, n),
    ensures
        ({
            let cleared = s.attempted(Opcode::OP00E0, 0);
            let once = cleared.attempted(Opcode::OPDXYN { x, y, n }, 0);
            let twice = once.attempted(Opcode::OPDXYN { x, y, n }, 0);
            &&& forall|pixel: int| 0 <= pixel < 2048 ==> !cleared.display[pixel]
            &&& twice.display == cleared.display
            &&& cleared.execute(Opcode::OPDXYN { x, y, n }, 0) is Ok ==> {
                &&& once.execute(Opcode::OPDXYN { x, y, n }, 0) is Ok
                &&& twice.reg[0xF] == if exists|pixel: int| 0 <= pixel < 2048 && once.display[pixel] {
                    1u8
                } else {
                    0u8
                }
            }
        }),
{
    let draw = Opcode::OPDXYN { x, y, n };
    let cleared = s.attempted(Opcode::OP00E0, 0);
    let once = cleared.attempted(draw, 0);
    let twice = once.attempted(draw, 0);
    if cleared.execute(draw, 0) is Err {
        assert(once == cleared);
        assert(twice == cleared);
    } else {
        assert(!cleared.sprite_collides(x, y, n));
        assert(once.reg[0xF] == 0);
        assert forall|pixel: int| 0 <= pixel < 2048 implies once.sprite_covers(x, y, n, pixel)
            == cleared.sprite_covers(x, y, n, pixel) by {
            if redraw_aligned(s, x, y) {
                assert(once.sprite_row(y, pixel) == cleared.sprite_row(y, pixel));
                assert(once.sprite_col(x, pixel) == cleared.sprite_col(x, pixel));
            } else {
                assert(!cleared.sprite_covers(x, y, n, pixel)) by {
                    assert(s.sprite_covers(x, y, n, pixel) == cleared.sprite_covers(x, y, n, pixel));
                }
                if once.sprite_covers(x, y, n, pixel) {
                    let row = once.sprite_row(y, pixel);
                    let col = once.sprite_col(x, pixel);
                    crate::sprite::lemma_sprite_cell(s, x, y, n, row, col);
                    assert(s.sprite_covers(x, y, n, s.sprite_cell(x, y, row, col)));
                }
            }
        }
        assert(twice.display =~= cleared.display);
        if once.sprite_collides(x, y, n) {
            let witness = choose|pixel: int|
                0 <= pixel < 2048 && once.display[pixel] && #[trigger] once.sprite_covers(
                    x,
                    y,
                    n,
                    pixel,
                );
            assert(once.display[witness]);
        }
        if exists|pixel: int| 0 <= pixel < 2048 && once.display[pixel] {
            let witness = choose|pixel: int| 0 <= pixel < 2048 && once.display[pixel];
            assert(cleared.sprite_covers(x, y, n, witness));
            assert(once.sprite_covers(x, y, n, witness));
            assert(once.sprite_collides(x, y, n));
        }
    }
}

} // verus!
