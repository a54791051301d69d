use chip8::cpu::Chip8;
use chip8::display::{key_index, HostEvent, CYCLES_PER_FRAME, HEIGHT, KEY_ESCAPE, SCALE, WIDTH};
use chip8::fault::Fault;

#[test]
fn window_is_the_display_times_the_scale() {
    assert_eq!(SCALE, 10);
    assert_eq!(WIDTH, 64 * SCALE);
    assert_eq!(HEIGHT, 32 * SCALE);
    assert_eq!(CYCLES_PER_FRAME, 10);
}

#[test]
fn host_keys_stand_for_the_keypad() {
    let rows = [
        ('1', 0x1), ('2', 0x2), ('3', 0x3), ('4', 0xC),
        ('q', 0x4), ('w', 0x5), ('e', 0x6), ('r', 0xD),
        ('a', 0x7), ('s', 0x8), ('d', 0x9), ('f', 0xE),
        ('z', 0xA), ('x', 0x0), ('c', 0xB), ('v', 0xF),
    ];
    for (key, index) in rows {
        assert_eq!(key_index(key as i32), Some(index));
    }
}

#[test]
fn other_host_keys_stand_for_nothing() {
    assert_eq!(key_index(KEY_ESCAPE), None);
    assert_eq!(key_index('5' as i32), None);
    assert_eq!(key_index('0' as i32), None);
    assert_eq!(key_index('X' as i32), None);
    assert_eq!(key_index(' ' as i32), None);
    assert_eq!(key_index(0), None);
    assert_eq!(key_index(-1), None);
    assert_eq!(key_index(0x4000_0052), None);
    let mapped = (-1000..1000).filter(|&code| key_index(code).is_some()).count();
    assert_eq!(mapped, 16);
}

#[test]
fn key_events_press_and_release() {
    let mut chip8 = Chip8::new();
    assert!(!chip8.handle_event(HostEvent::KeyDown('q' as i32)));
    assert!(chip8.keys[4]);
    assert!(!chip8.handle_event(HostEvent::KeyDown('v' as i32)));
    assert!(chip8.keys[15]);
    assert!(!chip8.handle_event(HostEvent::KeyUp('q' as i32)));
    assert!(!chip8.keys[4]);
    assert!(chip8.keys[15]);
    assert_eq!(chip8.keys.iter().filter(|&&k| k).count(), 1);
}

#[test]
fn quit_and_escape_ask_to_stop() {
    let mut chip8 = Chip8::new();
    assert!(chip8.handle_event(HostEvent::Quit));
    assert!(chip8.handle_event(HostEvent::KeyDown(KEY_ESCAPE)));
    assert!(!chip8.handle_event(HostEvent::KeyUp(KEY_ESCAPE)));
    assert!(!chip8.handle_event(HostEvent::KeyDown('p' as i32)));
    assert_eq!(chip8.keys, [false; 16]);
}

#[test]
fn frame_runs_ten_cycles() {
    let mut chip8 = Chip8::new();
    let mut rom = Vec::new();
    for _ in 0..12 {
        rom.extend_from_slice(&[0x70, 0x01]);
    }
    assert_eq!(chip8.load_rom(&rom), Ok(()));
    chip8.dt = 25;
    assert_eq!(chip8.emulate(&[]), Ok(false));
    assert_eq!(chip8.reg[0], 10);
    assert_eq!(chip8.pc, 0x200 + 20);
    assert_eq!(chip8.dt, 15);
}

#[test]
fn frame_takes_events_before_the_cycles() {
    let mut chip8 = Chip8::new();
    // wait for a key into V1, then jump to self
    assert_eq!(chip8.load_rom(&[0xF1, 0x0A, 0x12, 0x02]), Ok(()));
    assert_eq!(chip8.emulate(&[]), Ok(false));
    assert_eq!(chip8.pc, 0x200);
    let events = [HostEvent::KeyDown('w' as i32), HostEvent::KeyDown('e' as i32), HostEvent::KeyUp('w' as i32)];
    assert_eq!(chip8.emulate(&events), Ok(false));
    assert_eq!(chip8.reg[1], 6);
    assert_eq!(chip8.pc, 0x202);
    assert!(chip8.keys[6]);
    assert!(!chip8.keys[5]);
}

#[test]
fn frame_reports_quit_and_still_runs_its_cycles() {
    let mut chip8 = Chip8::new();
    assert_eq!(chip8.load_rom(&[0x70, 0x01, 0x12, 0x00]), Ok(()));
    let events = [HostEvent::KeyDown('a' as i32), HostEvent::Quit, HostEvent::KeyDown('s' as i32)];
    assert_eq!(chip8.emulate(&events), Ok(true));
    assert_eq!(chip8.reg[0], 5);
    assert!(chip8.keys[7]);
    assert!(chip8.keys[8]);
    assert_eq!(chip8.emulate(&[HostEvent::KeyDown(KEY_ESCAPE)]), Ok(true));
    assert_eq!(chip8.emulate(&[HostEvent::KeyUp(KEY_ESCAPE)]), Ok(false));
}

#[test]
fn frame_stops_at_the_first_fault() {
    let mut chip8 = Chip8::new();
    assert_eq!(chip8.load_rom(&[0x70, 0x01, 0x70, 0x01, 0x00, 0xEE, 0x70, 0x01]), Ok(()));
    chip8.dt = 9;
    assert_eq!(chip8.emulate(&[HostEvent::Quit]), Err(Fault::StackUnderflow));
    assert_eq!(chip8.reg[0], 2);
    assert_eq!(chip8.pc, 0x206);
    assert_eq!(chip8.opcode, 0x00EE);
    assert_eq!(chip8.dt, 7);
}

#[test]
fn lit_pixels_are_scaled_corners_in_row_order() {
    let mut chip8 = Chip8::new();
    assert!(chip8.lit_pixels().is_empty());
    chip8.display[0] = true;
    chip8.display[63] = true;
    chip8.display[64] = true;
    chip8.display[5 * 64 + 7] = true;
    chip8.display[2047] = true;
    assert_eq!(chip8.lit_pixels(), vec![(0, 0), (630, 0), (0, 10), (70, 50), (630, 310)]);
}

#[test]
fn every_lit_pixel_has_a_corner() {
    let mut chip8 = Chip8::new();
    chip8.display = [true; 2048];
    let corners = chip8.lit_pixels();
    assert_eq!(corners.len(), 2048);
    for (i, &(x, y)) in corners.iter().enumerate() {
        assert_eq!((x, y), ((i % 64) as i32 * 10, (i / 64) as i32 * 10));
    }
}
