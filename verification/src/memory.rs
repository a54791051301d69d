//! The memory map: where the font and the program lie, and how they are
//! put there.

use crate::fault::Fault;
use vstd::prelude::*;

verus! {

/// The number of memory cells.
pub const MEMORY_SIZE: usize = 4096;

/// The address at which a program starts.
pub const ADDR_INIT: u16 = 0x200;

/// The address at which the font starts.
pub const FONTSET_ADDR_INIT: u16 = 0;

/// The glyphs of the hexadecimal digits 0 to F, five bytes each: one row
/// per byte, in the high nibble.
pub const FONTSET: [u8; 80] = [
    0xF0, 0x90, 0x90, 0x90, 0xF0,
    0x20, 0x60, 0x20, 0x20, 0x70,
    0xF0, 0x10, 0xF0, 0x80, 0xF0,
    0xF0, 0x10, 0xF0, 0x10, 0xF0,
    0x90, 0x90, 0xF0, 0x10, 0x10,
    0xF0, 0x80, 0xF0, 0x10, 0xF0,
    0xF0, 0x80, 0xF0, 0x90, 0xF0,
    0xF0, 0x10, 0x20, 0x40, 0x40,
    0xF0, 0x90, 0xF0, 0x90, 0xF0,
    0xF0, 0x90, 0xF0, 0x10, 0xF0,
    0xF0, 0x90, 0xF0, 0x90, 0x90,
    0xE0, 0x90, 0xE0, 0x90, 0xE0,
    0xF0, 0x80, 0x80, 0x80, 0xF0,
    0xE0, 0x90, 0x90, 0x90, 0xE0,
    0xF0, 0x80, 0xF0, 0x80, 0xF0,
    0xF0, 0x80, 0xF0, 0x80, 0x80,
];

/// Memory `ram` with `bytes` written from address `start` on.
pub open spec fn overlaid(ram: Seq<u8>, start: int, bytes: Seq<u8>) -> Seq<u8> {
    Seq::new(
        ram.len(),
        |a: int|
            if start <= a < start + bytes.len() {
                bytes[a - start]
            } else {
                ram[a]
            },
    )
}

/// Copies `bytes` into `ram` from address `start` on.
fn copy_into(ram: &mut [u8; 4096], start: usize, bytes: &[u8])
    requires
        start + bytes@.len() <= 4096,
    ensures
        final(ram)@ == overlaid(old(ram)@, start as int, bytes@),
{
    let mut i: usize = 0;
    while i < bytes.len()
        invariant
            i <= bytes@.len(),
            start + bytes@.len() <= 4096,
            ram@ == overlaid(old(ram)@, start as int, bytes@.take(i as int)),
        decreases bytes@.len() - i,
    {
        ram[start + i] = bytes[i];
        i += 1;
    }
    assert(bytes@.take(i as int) == bytes@);
}

/// Copies the program `rom` verbatim into `ram` from the program start on.
/// A program that does not fit between the program start and the end of
/// memory is refused, and `ram` stays as it was.
pub fn load_rom(ram: &mut [u8; 4096], rom: &[u8]) -> (res: Result<(), Fault>)
    ensures
        rom@.len() <= MEMORY_SIZE - ADDR_INIT ==> res is Ok && final(ram)@ == overlaid(
            old(ram)@,
            ADDR_INIT as int,
            rom@,
        ),
        rom@.len() > MEMORY_SIZE - ADDR_INIT ==> res == Err::<(), Fault>(Fault::OutOfBounds)
            && final(ram)@ == old(ram)@,
{
    if rom.len() > MEMORY_SIZE - ADDR_INIT as usize {
        return Err(Fault::OutOfBounds);
    }
    copy_into(ram, ADDR_INIT as usize, rom);
    Ok(())
}

/// Copies the font `fontset` into `ram` from the font start on.
pub fn load_fontset(ram: &mut [u8; 4096], fontset: &[u8; 80])
    ensures
        final(ram)@ == overlaid(old(ram)@, FONTSET_ADDR_INIT as int, fontset@),
{
    copy_into(ram, FONTSET_ADDR_INIT as usize, fontset.as_slice());
}

} // verus!
