//! The instruction set: the 34 instructions with their operands, the word
//! that encodes each of them, and the decoding of a word.

use vstd::arithmetic::div_mod::lemma_fundamental_div_mod_converse;
use vstd::prelude::*;

verus! {

/// One instruction with its operands. `x` and `y` are register indices,
/// `n` a nibble, `kk` an immediate byte and `nnn` an immediate address.
#[derive(Clone, Copy, Debug, PartialEq, Eq, Structural)]
pub enum Opcode {
    /// CLS
    OP00E0,
    /// RET
    OP00EE,
    /// JP addr
    OP1NNN { nnn: u16 },
    /// CALL addr
    OP2NNN { nnn: u16 },
    /// SE Vx, byte
    OP3XKK { x: u8, kk: u8 },
    /// SNE Vx, byte
    OP4XKK { x: u8, kk: u8 },
    /// SE Vx, Vy
    OP5XY0 { x: u8, y: u8 },
    /// LD Vx, byte
    OP6XKK { x: u8, kk: u8 },
    /// ADD Vx, byte
    OP7XKK { x: u8, kk: u8 },
    /// LD Vx, Vy
    OP8XY0 { x: u8, y: u8 },
    /// OR Vx, Vy
    OP8XY1 { x: u8, y: u8 },
    /// AND Vx, Vy
    OP8XY2 { x: u8, y: u8 },
    /// XOR Vx, Vy
    OP8XY3 { x: u8, y: u8 },
    /// ADD Vx, Vy
    OP8XY4 { x: u8, y: u8 },
    /// SUB Vx, Vy
    OP8XY5 { x: u8, y: u8 },
    /// SHR Vx {, Vy}
    OP8XY6 { x: u8, y: u8 },
    /// SUBN Vx, Vy
    OP8XY7 { x: u8, y: u8 },
    /// SHL Vx {, Vy}
    OP8XYE { x: u8, y: u8 },
    /// SNE Vx, Vy
    OP9XY0 { x: u8, y: u8 },
    /// LD I, addr
    OPANNN { nnn: u16 },
    /// JP V0, addr
    OPBNNN { nnn: u16 },
    /// RND Vx, byte
    OPCXKK { x: u8, kk: u8 },
    /// DRW Vx, Vy, nibble
    OPDXYN { x: u8, y: u8, n: u8 },
    /// SKP Vx
    OPEX9E { x: u8 },
    /// SKNP Vx
    OPEXA1 { x: u8 },
    /// LD Vx, DT
    OPFX07 { x: u8 },
    /// LD Vx, K
    OPFX0A { x: u8 },
    /// LD DT, Vx
    OPFX15 { x: u8 },
    /// LD ST, Vx
    OPFX18 { x: u8 },
    /// ADD I, Vx
    OPFX1E { x: u8 },
    /// LD F, Vx
    OPFX29 { x: u8 },
    /// LD B, Vx
    OPFX33 { x: u8 },
    /// LD [I], Vx
    OPFX55 { x: u8 },
    /// LD Vx, [I]
    OPFX65 { x: u8 },
}

/// The word made of a leading nibble and a 12-bit address.
pub open spec fn word_nnn(lead: int, nnn: u16) -> int {
    lead * 0x1000 + nnn
}

/// The word made of a leading nibble, a register index and a byte.
pub open spec fn word_xkk(lead: int, x: u8, kk: u8) -> int {
    lead * 0x1000 + x * 0x100 + kk
}

/// The word made of a leading nibble, two register indices and a last nibble.
pub open spec fn word_xyn(lead: int, x: u8, y: u8, n: int) -> int {
    lead * 0x1000 + x * 0x100 + y * 0x10 + n
}

impl Opcode {
    /// Every operand fits its bit field: register indices and the nibble
    /// are below 16, an address is below 4096.
    pub open spec fn wf(self) -> bool {
        match self {
            Opcode::OP00E0 | Opcode::OP00EE => true,
            Opcode::OP1NNN { nnn }
            | Opcode::OP2NNN { nnn }
            | Opcode::OPANNN { nnn }
            | Opcode::OPBNNN { nnn } => nnn < 0x1000,
            Opcode::OP3XKK { x, kk }
            | Opcode::OP4XKK { x, kk }
            | Opcode::OP6XKK { x, kk }
            | Opcode::OP7XKK { x, kk }
            | Opcode::OPCXKK { x, kk } => x < 16,
            Opcode::OP5XY0 { x, y }
            | Opcode::OP8XY0 { x, y }
            | Opcode::OP8XY1 { x, y }
            | Opcode::OP8XY2 { x, y }
            | Opcode::OP8XY3 { x, y }
            | Opcode::OP8XY4 { x, y }
            | Opcode::OP8XY5 { x, y }
            | Opcode::OP8XY6 { x, y }
            | Opcode::OP8XY7 { x, y }
            | Opcode::OP8XYE { x, y }
            | Opcode::OP9XY0 { x, y } => x < 16 && y < 16,
            Opcode::OPDXYN { x, y, n } => x < 16 && y < 16 && n < 16,
            Opcode::OPEX9E { x }
            | Opcode::OPEXA1 { x }
            | Opcode::OPFX07 { x }
            | Opcode::OPFX0A { x }
            | Opcode::OPFX15 { x }
            | Opcode::OPFX18 { x }
            | Opcode::OPFX1E { x }
            | Opcode::OPFX29 { x }
            | Opcode::OPFX33 { x }
            | Opcode::OPFX55 { x }
            | Opcode::OPFX65 { x } => x < 16,
        }
    }

    /// The instruction table: the 16-bit word that stands for this
    /// instruction.
    pub open spec fn encode(self) -> int {
        match self {
            Opcode::OP00E0 => 0x00E0,
            Opcode::OP00EE => 0x00EE,
            Opcode::OP1NNN { nnn } => word_nnn(0x1, nnn),
            Opcode::OP2NNN { nnn } => word_nnn(0x2, nnn),
            Opcode::OP3XKK { x, kk } => word_xkk(0x3, x, kk),
            Opcode::OP4XKK { x, kk } => word_xkk(0x4, x, kk),
            Opcode::OP5XY0 { x, y } => word_xyn(0x5, x, y, 0x0),
            Opcode::OP6XKK { x, kk } => word_xkk(0x6, x, kk),
            Opcode::OP7XKK { x, kk } => word_xkk(0x7, x, kk),
            Opcode::OP8XY0 { x, y } => word_xyn(0x8, x, y, 0x0),
            Opcode::OP8XY1 { x, y } => word_xyn(0x8, x, y, 0x1),
            Opcode::OP8XY2 { x, y } => word_xyn(0x8, x, y, 0x2),
            Opcode::OP8XY3 { x, y } => word_xyn(0x8, x, y, 0x3),
            Opcode::OP8XY4 { x, y } => word_xyn(0x8, x, y, 0x4),
            Opcode::OP8XY5 { x, y } => word_xyn(0x8, x, y, 0x5),
            Opcode::OP8XY6 { x, y } => word_xyn(0x8, x, y, 0x6),
            Opcode::OP8XY7 { x, y } => word_xyn(0x8, x, y, 0x7),
            Opcode::OP8XYE { x, y } => word_xyn(0x8, x, y, 0xE),
            Opcode::OP9XY0 { x, y } => word_xyn(0x9, x, y, 0x0),
            Opcode::OPANNN { nnn } => word_nnn(0xA, nnn),
            Opcode::OPBNNN { nnn } => word_nnn(0xB, nnn),
            Opcode::OPCXKK { x, kk } => word_xkk(0xC, x, kk),
            Opcode::OPDXYN { x, y, n } => word_xyn(0xD, x, y, n as int),
            Opcode::OPEX9E { x } => word_xkk(0xE, x, 0x9E),
            Opcode::OPEXA1 { x } => word_xkk(0xE, x, 0xA1),
            Opcode::OPFX07 { x } => word_xkk(0xF, x, 0x07),
            Opcode::OPFX0A { x } => word_xkk(0xF, x, 0x0A),
            Opcode::OPFX15 { x } => word_xkk(0xF, x, 0x15),
            Opcode::OPFX18 { x } => word_xkk(0xF, x, 0x18),
            Opcode::OPFX1E { x } => word_xkk(0xF, x, 0x1E),
            Opcode::OPFX29 { x } => word_xkk(0xF, x, 0x29),
            Opcode::OPFX33 { x } => word_xkk(0xF, x, 0x33),
            Opcode::OPFX55 { x } => word_xkk(0xF, x, 0x55),
            Opcode::OPFX65 { x } => word_xkk(0xF, x, 0x65),
        }
    }
}

/// Bits 12 to 15 of a word.
pub open spec fn field_lead(word: u16) -> int {
    (word / 0x1000) as int
}

/// Bits 8 to 11 of a word: the first register index.
pub open spec fn field_x(word: u16) -> u8 {
    ((word / 0x100) % 0x10) as u8
}

/// Bits 4 to 7 of a word: the second register index.
pub open spec fn field_y(word: u16) -> u8 {
    ((word / 0x10) % 0x10) as u8
}

/// Bits 0 to 3 of a word.
pub open spec fn field_n(word: u16) -> u8 {
    (word % 0x10) as u8
}

/// Bits 0 to 7 of a word: the immediate byte.
pub open spec fn field_kk(word: u16) -> u8 {
    (word % 0x100) as u8
}

/// Bits 0 to 11 of a word: the immediate address.
pub open spec fn field_nnn(word: u16) -> u16 {
    (word % 0x1000) as u16
}

/// The instruction that a word stands for, if any: dispatch on the leading
/// nibble, then on the last nibble or the low byte where the family has
/// sub-codes.
pub open spec fn decode(word: u16) -> Option<Opcode> {
    let x = field_x(word);
    let y = field_y(word);
    let n = field_n(word);
    let kk = field_kk(word);
    let nnn = field_nnn(word);
    let lead = field_lead(word);
    if lead == 0x0 {
        if word == 0x00E0 {
            Some(Opcode::OP00E0)
        } else if word == 0x00EE {
            Some(Opcode::OP00EE)
        } else {
            None
        }
    } else if lead == 0x1 {
        Some(Opcode::OP1NNN { nnn })
    } else if lead == 0x2 {
        Some(Opcode::OP2NNN { nnn })
    } else if lead == 0x3 {
        Some(Opcode::OP3XKK { x, kk })
    } else if lead == 0x4 {
        Some(Opcode::OP4XKK { x, kk })
    } else if lead == 0x5 {
        if n == 0x0 {
            Some(Opcode::OP5XY0 { x, y })
        } else {
            None
        }
    } else if lead == 0x6 {
        Some(Opcode::OP6XKK { x, kk })
    } else if lead == 0x7 {
        Some(Opcode::OP7XKK { x, kk })
    } else if lead == 0x8 {
        if n == 0x0 {
            Some(Opcode::OP8XY0 { x, y })
        } else if n == 0x1 {
            Some(Opcode::OP8XY1 { x, y })
        } else if n == 0x2 {
            Some(Opcode::OP8XY2 { x, y })
        } else if n == 0x3 {
            Some(Opcode::OP8XY3 { x, y })
        } else if n == 0x4 {
            Some(Opcode::OP8XY4 { x, y })
        } else if n == 0x5 {
            Some(Opcode::OP8XY5 { x, y })
        } else if n == 0x6 {
            Some(Opcode::OP8XY6 { x, y })
        } else if n == 0x7 {
            Some(Opcode::OP8XY7 { x, y })
        } else if n == 0xE {
            Some(Opcode::OP8XYE { x, y })
        } else {
            None
        }
    } else if lead == 0x9 {
        if n == 0x0 {
            Some(Opcode::OP9XY0 { x, y })
        } else {
            None
        }
    } else if lead == 0xA {
        Some(Opcode::OPANNN { nnn })
    } else if lead == 0xB {
        Some(Opcode::OPBNNN { nnn })
    } else if lead == 0xC {
        Some(Opcode::OPCXKK { x, kk })
    } else if lead == 0xD {
        Some(Opcode::OPDXYN { x, y, n })
    } else if lead == 0xE {
        if kk == 0x9E {
            Some(Opcode::OPEX9E { x })
        } else if kk == 0xA1 {
            Some(Opcode::OPEXA1 { x })
        } else {
            None
        }
    } else {
        if kk == 0x07 {
            Some(Opcode::OPFX07 { x })
        } else if kk == 0x0A {
            Some(Opcode::OPFX0A { x })
        } else if kk == 0x15 {
            Some(Opcode::OPFX15 { x })
        } else if kk == 0x18 {
            Some(Opcode::OPFX18 { x })
        } else if kk == 0x1E {
            Some(Opcode::OPFX1E { x })
        } else if kk == 0x29 {
            Some(Opcode::OPFX29 { x })
        } else if kk == 0x33 {
            Some(Opcode::OPFX33 { x })
        } else if kk == 0x55 {
            Some(Opcode::OPFX55 { x })
        } else if kk == 0x65 {
            Some(Opcode::OPFX65 { x })
        } else {
            None
        }
    }
}

/// Bits 12 to 15 of `word`.
pub(crate) fn lead_of(word: u16) -> (lead: u16)
    ensures
        lead == field_lead(word),
{
    assert((word & 0xF000) >> 12 == word / 0x1000) by (bit_vector);
    (word & 0xF000) >> 12
}

/// Bits 8 to 11 of `word`.
pub(crate) fn x_of(word: u16) -> (x: u8)
    ensures
        x == field_x(word),
        x < 16,
{
    assert((word & 0x0F00) >> 8 == (word / 0x100) % 0x10) by (bit_vector);
    ((word & 0x0F00) >> 8) as u8
}

/// Bits 4 to 7 of `word`.
pub(crate) fn y_of(word: u16) -> (y: u8)
    ensures
        y == field_y(word),
        y < 16,
{
    assert((word & 0x00F0) >> 4 == (word / 0x10) % 0x10) by (bit_vector);
    ((word & 0x00F0) >> 4) as u8
}

/// Bits 0 to 3 of `word`.
pub(crate) fn n_of(word: u16) -> (n: u8)
    ensures
        n == field_n(word),
        n < 16,
{
    assert(word & 0x000F == word % 0x10) by (bit_vector);
    (word & 0x000F) as u8
}

/// Bits 0 to 7 of `word`.
pub(crate) fn kk_of(word: u16) -> (kk: u8)
    ensures
        kk == field_kk(word),
{
    assert(word & 0x00FF == word % 0x100) by (bit_vector);
    (word & 0x00FF) as u8
}

/// Bits 0 to 11 of `word`.
pub(crate) fn nnn_of(word: u16) -> (nnn: u16)
    ensures
        nnn == field_nnn(word),
        nnn < 0x1000,
{
    assert(word & 0x0FFF == word % 0x1000) by (bit_vector);
    word & 0x0FFF
}

/// A decoded word is a well-formed instruction whose encoding is that word.
pub proof fn lemma_decode_sound(word: u16)
    ensures
        decode(word) matches Some(op) ==> op.wf() && op.encode() == word,
{
    lemma_word_of_fields(word);
}

/// A word is the sum of its bit fields, each at its place.
proof fn lemma_word_of_fields(word: u16)
    ensures
        0 <= field_lead(word) < 16,
        field_x(word) < 16,
        field_y(word) < 16,
        field_n(word) < 16,
        field_nnn(word) < 0x1000,
        word == word_xyn(field_lead(word), field_x(word), field_y(word), field_n(word) as int),
        word == word_xkk(field_lead(word), field_x(word), field_kk(word)),
        word == word_nnn(field_lead(word), field_nnn(word)),
{
    let lead: u16 = word / 0x1000;
    let x: u16 = (word / 0x100) % 0x10;
    let y: u16 = (word / 0x10) % 0x10;
    let n: u16 = word % 0x10;
    let kk: u16 = word % 0x100;
    let nnn: u16 = word % 0x1000;
    assert(lead < 16 && x < 16 && y < 16 && n < 16 && kk < 0x100 && nnn < 0x1000) by (bit_vector)
        requires
            lead == word / 0x1000,
            x == (word / 0x100) % 0x10,
            y == (word / 0x10) % 0x10,
            n == word % 0x10,
            kk == word % 0x100,
            nnn == word % 0x1000,
    ;
    assert(word == lead * 0x1000 + x * 0x100 + y * 0x10 + n && kk == y * 0x10 + n && nnn == x
        * 0x100 + y * 0x10 + n) by (bit_vector)
        requires
            lead == word / 0x1000,
            x == (word / 0x100) % 0x10,
            y == (word / 0x10) % 0x10,
            n == word % 0x10,
            kk == word % 0x100,
            nnn == word % 0x1000,
    ;
}

/// The bit fields of a word put together from four nibbles.
proof fn lemma_fields_of_nibbles(lead: int, x: u8, y: u8, n: u8)
    requires
        0 <= lead < 16,
        x < 16,
        y < 16,
        n < 16,
    ensures
        0 <= word_xyn(lead, x, y, n as int) < 0x10000,
        field_lead(word_xyn(lead, x, y, n as int) as u16) == lead,
        field_x(word_xyn(lead, x, y, n as int) as u16) == x,
        field_y(word_xyn(lead, x, y, n as int) as u16) == y,
        field_n(word_xyn(lead, x, y, n as int) as u16) == n,
        field_kk(word_xyn(lead, x, y, n as int) as u16) == y * 0x10 + n,
        field_nnn(word_xyn(lead, x, y, n as int) as u16) == x * 0x100 + y * 0x10 + n,
{
    let w = word_xyn(lead, x, y, n as int);
    lemma_fundamental_div_mod_converse(w, 0x1000, lead, x * 0x100 + y * 0x10 + n);
    lemma_fundamental_div_mod_converse(w, 0x100, lead * 0x10 + x, y * 0x10 + n);
    lemma_fundamental_div_mod_converse(lead * 0x10 + x, 0x10, lead, x as int);
    lemma_fundamental_div_mod_converse(w, 0x10, lead * 0x100 + x * 0x10 + y, n as int);
    lemma_fundamental_div_mod_converse(lead * 0x100 + x * 0x10 + y, 0x10, lead * 0x10 + x, y as int);
}

/// Every well-formed instruction is decoded from its encoding.
pub proof fn lemma_decode_complete(op: Opcode)
    requires
        op.wf(),
    ensures
        0 <= op.encode() < 0x10000,
        decode(op.encode() as u16) == Some(op),
{
    match op {
        Opcode::OP00E0 | Opcode::OP00EE => {},
        Opcode::OP1NNN { nnn } => lemma_decode_nnn(0x1, nnn),
        Opcode::OP2NNN { nnn } => lemma_decode_nnn(0x2, nnn),
        Opcode::OPANNN { nnn } => lemma_decode_nnn(0xA, nnn),
        Opcode::OPBNNN { nnn } => lemma_decode_nnn(0xB, nnn),
        Opcode::OP3XKK { x, kk } => lemma_decode_xkk(0x3, x, kk),
        Opcode::OP4XKK { x, kk } => lemma_decode_xkk(0x4, x, kk),
        Opcode::OP6XKK { x, kk } => lemma_decode_xkk(0x6, x, kk),
        Opcode::OP7XKK { x, kk } => lemma_decode_xkk(0x7, x, kk),
        Opcode::OPCXKK { x, kk } => lemma_decode_xkk(0xC, x, kk),
        Opcode::OP5XY0 { x, y } => lemma_fields_of_nibbles(0x5, x, y, 0x0),
        Opcode::OP8XY0 { x, y } => lemma_fields_of_nibbles(0x8, x, y, 0x0),
        Opcode::OP8XY1 { x, y } => lemma_fields_of_nibbles(0x8, x, y, 0x1),
        Opcode::OP8XY2 { x, y } => lemma_fields_of_nibbles(0x8, x, y, 0x2),
        Opcode::OP8XY3 { x, y } => lemma_fields_of_nibbles(0x8, x, y, 0x3),
        Opcode::OP8XY4 { x, y } => lemma_fields_of_nibbles(0x8, x, y, 0x4),
        Opcode::OP8XY5 { x, y } => lemma_fields_of_nibbles(0x8, x, y, 0x5),
        Opcode::OP8XY6 { x, y } => lemma_fields_of_nibbles(0x8, x, y, 0x6),
        Opcode::OP8XY7 { x, y } => lemma_fields_of_nibbles(0x8, x, y, 0x7),
        Opcode::OP8XYE { x, y } => lemma_fields_of_nibbles(0x8, x, y, 0xE),
        Opcode::OP9XY0 { x, y } => lemma_fields_of_nibbles(0x9, x, y, 0x0),
        Opcode::OPDXYN { x, y, n } => lemma_fields_of_nibbles(0xD, x, y, n),
        Opcode::OPEX9E { x } => lemma_decode_xkk(0xE, x, 0x9E),
        Opcode::OPEXA1 { x } => lemma_decode_xkk(0xE, x, 0xA1),
        Opcode::OPFX07 { x } => lemma_decode_xkk(0xF, x, 0x07),
        Opcode::OPFX0A { x } => lemma_decode_xkk(0xF, x, 0x0A),
        Opcode::OPFX15 { x } => lemma_decode_xkk(0xF, x, 0x15),
        Opcode::OPFX18 { x } => lemma_decode_xkk(0xF, x, 0x18),
        Opcode::OPFX1E { x } => lemma_decode_xkk(0xF, x, 0x1E),
        Opcode::OPFX29 { x } => lemma_decode_xkk(0xF, x, 0x29),
        Opcode::OPFX33 { x } => lemma_decode_xkk(0xF, x, 0x33),
        Opcode::OPFX55 { x } => lemma_decode_xkk(0xF, x, 0x55),
        Opcode::OPFX65 { x } => lemma_decode_xkk(0xF, x, 0x65),
    }
}

/// The bit fields of a word put together from a nibble and an address.
proof fn lemma_decode_nnn(lead: int, nnn: u16)
    requires
        0 <= lead < 16,
        nnn < 0x1000,
    ensures
        0 <= word_nnn(lead, nnn) < 0x10000,
        field_lead(word_nnn(lead, nnn) as u16) == lead,
        field_nnn(word_nnn(lead, nnn) as u16) == nnn,
{
    lemma_fundamental_div_mod_converse(word_nnn(lead, nnn), 0x1000, lead, nnn as int);
}

/// The bit fields of a word put together from a nibble, a register index
/// and a byte.
proof fn lemma_decode_xkk(lead: int, x: u8, kk: u8)
    requires
        0 <= lead < 16,
        x < 16,
    ensures
        0 <= word_xkk(lead, x, kk) < 0x10000,
        field_lead(word_xkk(lead, x, kk) as u16) == lead,
        field_x(word_xkk(lead, x, kk) as u16) == x,
        field_kk(word_xkk(lead, x, kk) as u16) == kk,
        field_n(word_xkk(lead, x, kk) as u16) == kk % 0x10,
{
    lemma_fields_of_nibbles(lead, x, kk / 0x10, kk % 0x10);
}

/// A word that no well-formed instruction encodes is not decoded to any
/// instruction.
pub proof fn lemma_decode_rejects(word: u16)
    requires
        forall|op: Opcode| op.wf() ==> op.encode() != word,
    ensures
        decode(word) is None,
{
    lemma_decode_sound(word);
}

} // verus!
