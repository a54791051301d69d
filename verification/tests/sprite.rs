use chip8::cpu::Chip8;
use chip8::fault::Fault;
use chip8::opcodes::Opcode;

fn lit(chip8: &Chip8) -> Vec<(usize, usize)> {
    let mut cells = Vec::new();
    for (i, &px) in chip8.display.iter().enumerate() {
        if px {
            cells.push((i % 64, i / 64));
        }
    }
    cells
}

fn machine_with_sprite(bytes: &[u8], vx: u8, vy: u8) -> Chip8 {
    let mut chip8 = Chip8::new();
    chip8.ireg = 0x300;
    for (i, &b) in bytes.iter().enumerate() {
        chip8.ram[0x300 + i] = b;
    }
    chip8.reg[1] = vx;
    chip8.reg[2] = vy;
    chip8
}

#[test]
fn draw_puts_the_high_bit_leftmost() {
    let mut chip8 = machine_with_sprite(&[0b1010_0001], 3, 2);
    assert_eq!(chip8.execute(Opcode::OPDXYN { x: 1, y: 2, n: 1 }), Ok(()));
    assert_eq!(lit(&chip8), vec![(3, 2), (5, 2), (10, 2)]);
    assert_eq!(chip8.reg[15], 0);
}

#[test]
fn draw_puts_rows_one_below_the_other() {
    let mut chip8 = machine_with_sprite(&[0x80, 0x40, 0x20], 0, 0);
    assert_eq!(chip8.execute(Opcode::OPDXYN { x: 1, y: 2, n: 3 }), Ok(()));
    assert_eq!(lit(&chip8), vec![(0, 0), (1, 1), (2, 2)]);
    assert!(chip8.display[0]);
    assert!(chip8.display[65]);
    assert!(chip8.display[130]);
}

#[test]
fn draw_reads_only_n_rows() {
    let mut chip8 = machine_with_sprite(&[0x80, 0x80, 0x80], 0, 0);
    assert_eq!(chip8.execute(Opcode::OPDXYN { x: 1, y: 2, n: 2 }), Ok(()));
    assert_eq!(lit(&chip8), vec![(0, 0), (0, 1)]);
}

#[test]
fn draw_wraps_at_the_right_and_bottom_edges() {
    let mut chip8 = machine_with_sprite(&[0xFF, 0x81], 60, 31);
    assert_eq!(chip8.execute(Opcode::OPDXYN { x: 1, y: 2, n: 2 }), Ok(()));
    assert_eq!(
        lit(&chip8),
        vec![
            (3, 0),
            (60, 0),
            (0, 31),
            (1, 31),
            (2, 31),
            (3, 31),
            (60, 31),
            (61, 31),
            (62, 31),
            (63, 31)
        ]
    );
}

#[test]
fn draw_takes_coordinates_modulo_the_display() {
    let mut chip8 = machine_with_sprite(&[0x80], 64 + 5, 32 + 7);
    assert_eq!(chip8.execute(Opcode::OPDXYN { x: 1, y: 2, n: 1 }), Ok(()));
    assert_eq!(lit(&chip8), vec![(5, 7)]);
    let mut chip8 = machine_with_sprite(&[0xC0], 255, 255);
    assert_eq!(chip8.execute(Opcode::OPDXYN { x: 1, y: 2, n: 1 }), Ok(()));
    assert_eq!(lit(&chip8), vec![(0, 31), (63, 31)]);
}

#[test]
fn draw_flips_pixels_and_reports_collision() {
    let mut chip8 = machine_with_sprite(&[0b1100_0000], 0, 0);
    chip8.display[1] = true;
    chip8.display[2] = true;
    assert_eq!(chip8.execute(Opcode::OPDXYN { x: 1, y: 2, n: 1 }), Ok(()));
    assert_eq!(lit(&chip8), vec![(0, 0), (2, 0)]);
    assert_eq!(chip8.reg[15], 1);
}

#[test]
fn draw_resets_the_flag_without_collision() {
    let mut chip8 = machine_with_sprite(&[0b1100_0000], 0, 0);
    chip8.reg[15] = 1;
    chip8.display[2] = true;
    assert_eq!(chip8.execute(Opcode::OPDXYN { x: 1, y: 2, n: 1 }), Ok(()));
    assert_eq!(lit(&chip8), vec![(0, 0), (1, 0), (2, 0)]);
    assert_eq!(chip8.reg[15], 0);
}

#[test]
fn draw_of_no_rows_only_resets_the_flag() {
    let mut chip8 = machine_with_sprite(&[0xFF], 0, 0);
    chip8.reg[15] = 1;
    chip8.ireg = 0xFFFF;
    assert_eq!(chip8.execute(Opcode::OPDXYN { x: 1, y: 2, n: 0 }), Ok(()));
    assert!(lit(&chip8).is_empty());
    assert_eq!(chip8.reg[15], 0);
}

#[test]
fn draw_past_the_end_of_memory_is_out_of_bounds() {
    let mut chip8 = machine_with_sprite(&[], 0, 0);
    chip8.ireg = 0xFFE;
    chip8.ram[0xFFE] = 0xFF;
    chip8.ram[0xFFF] = 0xFF;
    chip8.reg[15] = 1;
    assert_eq!(chip8.execute(Opcode::OPDXYN { x: 1, y: 2, n: 3 }), Err(Fault::OutOfBounds));
    assert!(lit(&chip8).is_empty());
    assert_eq!(chip8.reg[15], 1);
    assert_eq!(chip8.execute(Opcode::OPDXYN { x: 1, y: 2, n: 2 }), Ok(()));
    assert_eq!(lit(&chip8).len(), 16);
}

#[test]
fn clear_then_two_identical_draws_leave_the_display_dark() {
    let sprite = [0xF0, 0x90, 0x90, 0x90, 0xF0, 0x00, 0x01, 0x80, 0xFF, 0x3C, 0x42, 0x99, 0xA5, 0x5A, 0xFF];
    for (vx, vy) in [(0u8, 0u8), (10, 5), (60, 30), (63, 31), (200, 100), (255, 255)] {
        for n in 0..16u8 {
            let mut chip8 = machine_with_sprite(&sprite, vx, vy);
            chip8.display[77] = true;
            assert_eq!(chip8.execute(Opcode::OP00E0), Ok(()));
            assert_eq!(chip8.execute(Opcode::OPDXYN { x: 1, y: 2, n }), Ok(()));
            assert_eq!(chip8.reg[15], 0);
            let drew = !lit(&chip8).is_empty();
            assert_eq!(drew, n > 0);
            assert_eq!(chip8.execute(Opcode::OPDXYN { x: 1, y: 2, n }), Ok(()));
            assert!(lit(&chip8).is_empty());
            assert_eq!(chip8.reg[15], if drew { 1 } else { 0 });
        }
    }
}

#[test]
fn second_draw_through_the_flag_register_falls_at_zero() {
    let mut chip8 = machine_with_sprite(&[0x80], 0, 0);
    chip8.reg[15] = 5;
    assert_eq!(chip8.execute(Opcode::OP00E0), Ok(()));
    assert_eq!(chip8.execute(Opcode::OPDXYN { x: 15, y: 2, n: 1 }), Ok(()));
    assert_eq!(lit(&chip8), vec![(5, 0)]);
    assert_eq!(chip8.reg[15], 0);
    assert_eq!(chip8.execute(Opcode::OPDXYN { x: 15, y: 2, n: 1 }), Ok(()));
    assert_eq!(lit(&chip8), vec![(0, 0), (5, 0)]);
    assert_eq!(chip8.reg[15], 0);
}

#[test]
fn second_draw_through_the_flag_register_at_a_multiple_of_the_width() {
    let mut chip8 = machine_with_sprite(&[0x80], 0, 0);
    chip8.reg[15] = 64;
    assert_eq!(chip8.execute(Opcode::OP00E0), Ok(()));
    assert_eq!(chip8.execute(Opcode::OPDXYN { x: 15, y: 2, n: 1 }), Ok(()));
    assert_eq!(lit(&chip8), vec![(0, 0)]);
    assert_eq!(chip8.execute(Opcode::OPDXYN { x: 15, y: 2, n: 1 }), Ok(()));
    assert!(lit(&chip8).is_empty());
    assert_eq!(chip8.reg[15], 1);
}

#[test]
fn draw_leaves_everything_but_display_and_flag() {
    let mut chip8 = machine_with_sprite(&[0xFF, 0xFF], 9, 9);
    chip8.reg[3] = 33;
    chip8.pc = 0x222;
    chip8.dt = 4;
    let before = chip8.clone();
    assert_eq!(chip8.execute(Opcode::OPDXYN { x: 1, y: 2, n: 2 }), Ok(()));
    assert_eq!(&chip8.reg[0..15], &before.reg[0..15]);
    assert_eq!(chip8.ram[..], before.ram[..]);
    assert_eq!(chip8.ireg, before.ireg);
    assert_eq!(chip8.pc, before.pc);
    assert_eq!(chip8.dt, before.dt);
    assert_eq!(chip8.sp, before.sp);
}
