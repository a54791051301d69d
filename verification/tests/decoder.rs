use chip8::cpu::Chip8;
use chip8::opcodes::Opcode;

fn in_table(word: u16) -> bool {
    let low = word & 0x00FF;
    let last = word & 0x000F;
    match word >> 12 {
        0x0 => word == 0x00E0 || word == 0x00EE,
        0x5 | 0x9 => last == 0,
        0x8 => last <= 7 || last == 0xE,
        0xE => low == 0x9E || low == 0xA1,
        0xF => [0x07, 0x0A, 0x15, 0x18, 0x1E, 0x29, 0x33, 0x55, 0x65].contains(&low),
        _ => true,
    }
}

#[test]
fn decodes_clear_and_return() {
    let chip8 = Chip8::new();
    assert_eq!(chip8.decode_opcode(0x00E0), Some(Opcode::OP00E0));
    assert_eq!(chip8.decode_opcode(0x00EE), Some(Opcode::OP00EE));
}

#[test]
fn rejects_words_outside_the_table() {
    let chip8 = Chip8::new();
    assert_eq!(chip8.decode_opcode(0x5001), None);
    assert_eq!(chip8.decode_opcode(0x0000), None);
    assert_eq!(chip8.decode_opcode(0x00E1), None);
    assert_eq!(chip8.decode_opcode(0x9AB1), None);
    assert_eq!(chip8.decode_opcode(0x8AB8), None);
    assert_eq!(chip8.decode_opcode(0x8ABF), None);
    assert_eq!(chip8.decode_opcode(0xE19F), None);
    assert_eq!(chip8.decode_opcode(0xF1FF), None);
}

#[test]
fn decodes_exactly_the_table() {
    let chip8 = Chip8::new();
    let mut decoded = 0u32;
    for word in 0..=0xFFFFu16 {
        let res = chip8.decode_opcode(word);
        assert_eq!(res.is_some(), in_table(word), "word {:#06x}", word);
        if res.is_some() {
            decoded += 1;
        }
    }
    assert_eq!(decoded, 2 + 10 * 4096 + 2 * 256 + 9 * 256 + 2 * 16 + 9 * 16);
}

#[test]
fn decodes_address_instructions() {
    let chip8 = Chip8::new();
    assert_eq!(chip8.decode_opcode(0x1234), Some(Opcode::OP1NNN { nnn: 0x234 }));
    assert_eq!(chip8.decode_opcode(0x2FFF), Some(Opcode::OP2NNN { nnn: 0xFFF }));
    assert_eq!(chip8.decode_opcode(0xA000), Some(Opcode::OPANNN { nnn: 0x000 }));
    assert_eq!(chip8.decode_opcode(0xB2F0), Some(Opcode::OPBNNN { nnn: 0x2F0 }));
}

#[test]
fn decodes_immediate_instructions() {
    let chip8 = Chip8::new();
    assert_eq!(chip8.decode_opcode(0x3A12), Some(Opcode::OP3XKK { x: 0xA, kk: 0x12 }));
    assert_eq!(chip8.decode_opcode(0x4BFF), Some(Opcode::OP4XKK { x: 0xB, kk: 0xFF }));
    assert_eq!(chip8.decode_opcode(0x6C00), Some(Opcode::OP6XKK { x: 0xC, kk: 0x00 }));
    assert_eq!(chip8.decode_opcode(0x7D80), Some(Opcode::OP7XKK { x: 0xD, kk: 0x80 }));
    assert_eq!(chip8.decode_opcode(0xCE0F), Some(Opcode::OPCXKK { x: 0xE, kk: 0x0F }));
}

#[test]
fn decodes_register_instructions() {
    let chip8 = Chip8::new();
    assert_eq!(chip8.decode_opcode(0x5120), Some(Opcode::OP5XY0 { x: 1, y: 2 }));
    assert_eq!(chip8.decode_opcode(0x8120), Some(Opcode::OP8XY0 { x: 1, y: 2 }));
    assert_eq!(chip8.decode_opcode(0x8121), Some(Opcode::OP8XY1 { x: 1, y: 2 }));
    assert_eq!(chip8.decode_opcode(0x8122), Some(Opcode::OP8XY2 { x: 1, y: 2 }));
    assert_eq!(chip8.decode_opcode(0x8123), Some(Opcode::OP8XY3 { x: 1, y: 2 }));
    assert_eq!(chip8.decode_opcode(0x8124), Some(Opcode::OP8XY4 { x: 1, y: 2 }));
    assert_eq!(chip8.decode_opcode(0x8125), Some(Opcode::OP8XY5 { x: 1, y: 2 }));
    assert_eq!(chip8.decode_opcode(0x8126), Some(Opcode::OP8XY6 { x: 1, y: 2 }));
    assert_eq!(chip8.decode_opcode(0x8127), Some(Opcode::OP8XY7 { x: 1, y: 2 }));
    assert_eq!(chip8.decode_opcode(0x812E), Some(Opcode::OP8XYE { x: 1, y: 2 }));
    assert_eq!(chip8.decode_opcode(0x9FE0), Some(Opcode::OP9XY0 { x: 0xF, y: 0xE }));
    assert_eq!(chip8.decode_opcode(0xD12F), Some(Opcode::OPDXYN { x: 1, y: 2, n: 0xF }));
}

#[test]
fn decodes_key_and_timer_instructions() {
    let chip8 = Chip8::new();
    assert_eq!(chip8.decode_opcode(0xE39E), Some(Opcode::OPEX9E { x: 3 }));
    assert_eq!(chip8.decode_opcode(0xE3A1), Some(Opcode::OPEXA1 { x: 3 }));
    assert_eq!(chip8.decode_opcode(0xF307), Some(Opcode::OPFX07 { x: 3 }));
    assert_eq!(chip8.decode_opcode(0xF30A), Some(Opcode::OPFX0A { x: 3 }));
    assert_eq!(chip8.decode_opcode(0xF315), Some(Opcode::OPFX15 { x: 3 }));
    assert_eq!(chip8.decode_opcode(0xF318), Some(Opcode::OPFX18 { x: 3 }));
    assert_eq!(chip8.decode_opcode(0xF31E), Some(Opcode::OPFX1E { x: 3 }));
    assert_eq!(chip8.decode_opcode(0xF329), Some(Opcode::OPFX29 { x: 3 }));
    assert_eq!(chip8.decode_opcode(0xF333), Some(Opcode::OPFX33 { x: 3 }));
    assert_eq!(chip8.decode_opcode(0xF355), Some(Opcode::OPFX55 { x: 3 }));
    assert_eq!(chip8.decode_opcode(0xF365), Some(Opcode::OPFX65 { x: 3 }));
}

#[test]
fn decoding_does_not_depend_on_the_machine() {
    let mut chip8 = Chip8::new();
    chip8.opcode = 0x1234;
    chip8.pc = 0x0FFE;
    chip8.reg[3] = 9;
    assert_eq!(chip8.decode_opcode(0x6A55), Some(Opcode::OP6XKK { x: 0xA, kk: 0x55 }));
}
