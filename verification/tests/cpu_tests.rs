use chirp::chip_timer::ChipTimer;
use chirp::cpu::{decode_opcode, Chip8, Chip8Error, RomError, FONTSET};
use chirp::execute::{get_instruction, Chip8Instruction};
use chirp::{KeypadArray, CHIP8_DISPLAY_SIZE, MAX_ROM_SIZE, START_ADDRESS};

/// A machine with `rom` loaded, following the original quirks when `og`.
fn machine(og: bool, rom: &[u8]) -> Chip8 {
    let mut c = Chip8::new(og);
    c.load_rom(rom).unwrap();
    c
}

/// Runs one cycle, checking first that it can run.
fn step(c: &mut Chip8, t: &mut ChipTimer, keys: Option<KeypadArray>) -> Result<bool, Chip8Error> {
    assert!(c.can_cycle(&keys));
    c.cycle(t, keys)
}

fn run(c: &mut Chip8, t: &mut ChipTimer, n: usize) {
    for _ in 0..n {
        step(c, t, None).unwrap();
    }
}

#[test]
fn decode_splits_nibbles() {
    let d = decode_opcode(0x6A02);
    assert_eq!(d.n1, 0x6);
    assert_eq!(d.x, 0xA);
    assert_eq!(d.y, 0x0);
    assert_eq!(d.n, 0x2);
    assert_eq!(d.nn, 0x02);
    assert_eq!(d.nnn, 0xA02);
    let d = decode_opcode(0xD123);
    assert_eq!((d.n1, d.x, d.y, d.n, d.nn, d.nnn), (0xD, 1, 2, 3, 0x23, 0x123));
}

#[test]
fn instruction_names_per_group() {
    let i = |op: u16, og: bool| get_instruction(&decode_opcode(op), og);
    assert_eq!(i(0x00E0, false), Ok(Chip8Instruction::_00E0));
    assert_eq!(i(0x00EE, false), Ok(Chip8Instruction::_00EE));
    assert_eq!(i(0x0000, false), Err(()));
    assert_eq!(i(0x8AB4, false), Ok(Chip8Instruction::_8XY4));
    assert_eq!(i(0x8ABE, false), Ok(Chip8Instruction::_8XYE));
    assert_eq!(i(0x8AB8, false), Err(()));
    assert_eq!(i(0xB123, true), Ok(Chip8Instruction::_BNNN));
    assert_eq!(i(0xB123, false), Ok(Chip8Instruction::_BXNN));
    assert_eq!(i(0xE19E, false), Ok(Chip8Instruction::_EX9A));
    assert_eq!(i(0xE1A1, false), Ok(Chip8Instruction::_EXA1));
    assert_eq!(i(0xE100, false), Err(()));
    assert_eq!(i(0xF165, false), Ok(Chip8Instruction::_FX65));
    assert_eq!(i(0xF129, false), Ok(Chip8Instruction::_FX29));
    assert_eq!(i(0xF199, false), Err(()));
}

#[test]
fn new_machine_holds_font() {
    let c = Chip8::new(false);
    assert_eq!(&c.memory[0..80], &FONTSET[..]);
    assert!(c.memory[80..].iter().all(|&b| b == 0));
    assert_eq!(c.pcounter, START_ADDRESS);
    assert_eq!(c.index_reg, 0);
    assert!(c.stack.is_empty());
    assert!(c.display.iter().all(|&p| !p));
    assert!(c.registers.iter().all(|&r| r == 0));
}

#[test]
fn load_rom_copies_from_start_address() {
    let c = machine(false, &[1, 2, 3]);
    assert_eq!(&c.memory[0x200..0x203], &[1, 2, 3]);
    assert_eq!(c.memory[0x203], 0);
    assert_eq!(&c.memory[0..80], &FONTSET[..]);
}

#[test]
fn load_rom_refuses_too_large() {
    let mut c = Chip8::new(false);
    let fits = vec![7u8; MAX_ROM_SIZE];
    assert_eq!(c.load_rom(&fits), Ok(()));
    assert_eq!(c.memory[4095], 7);
    let mut d = Chip8::new(false);
    let big = vec![7u8; MAX_ROM_SIZE + 1];
    assert_eq!(d.load_rom(&big), Err(RomError::TooLarge));
    assert_eq!(d.memory[0x200], 0);
}

#[test]
fn set_and_add_wrap() {
    let mut c = machine(false, &[0x63, 0xFF, 0x73, 0x02]);
    let mut t = ChipTimer::new();
    assert_eq!(step(&mut c, &mut t, None), Ok(false));
    assert_eq!(c.registers[3], 0xFF);
    assert_eq!(c.pcounter, 0x202);
    step(&mut c, &mut t, None).unwrap();
    assert_eq!(c.registers[3], 0x01);
    assert_eq!(c.registers[15], 0);
}

#[test]
fn add_sets_carry() {
    // V1 = 200, V2 = 100, V1 += V2
    let mut c = machine(false, &[0x61, 200, 0x62, 100, 0x81, 0x24]);
    let mut t = ChipTimer::new();
    run(&mut c, &mut t, 3);
    assert_eq!(c.registers[1], 44);
    assert_eq!(c.registers[15], 1);
    assert_eq!(c.registers[1] as u16 + 256 * c.registers[15] as u16, 300);
}

#[test]
fn sub_sets_borrow_flag() {
    let mut c = machine(false, &[0x61, 5, 0x62, 10, 0x81, 0x25, 0x63, 9, 0x64, 4, 0x83, 0x45]);
    let mut t = ChipTimer::new();
    run(&mut c, &mut t, 3);
    assert_eq!(c.registers[1], 251);
    assert_eq!(c.registers[15], 0);
    run(&mut c, &mut t, 3);
    assert_eq!(c.registers[3], 5);
    assert_eq!(c.registers[15], 1);
}

#[test]
fn reverse_sub_leaves_vf() {
    let mut c = machine(false, &[0x61, 5, 0x62, 3, 0x6F, 7, 0x81, 0x27]);
    let mut t = ChipTimer::new();
    run(&mut c, &mut t, 4);
    assert_eq!(c.registers[1], 254);
    assert_eq!(c.registers[15], 7);
}

#[test]
fn logic_ops_and_quirk() {
    let rom = [0x61, 0b1100, 0x62, 0b1010, 0x6F, 9, 0x81, 0x21];
    let mut c = machine(false, &rom);
    let mut t = ChipTimer::new();
    run(&mut c, &mut t, 4);
    assert_eq!(c.registers[1], 0b1110);
    assert_eq!(c.registers[15], 9);
    let mut c = machine(true, &rom);
    run(&mut c, &mut t, 4);
    assert_eq!(c.registers[1], 0b1110);
    assert_eq!(c.registers[15], 0);
    let mut c = machine(false, &[0x61, 0b1100, 0x62, 0b1010, 0x81, 0x22, 0x83, 0x13]);
    run(&mut c, &mut t, 3);
    assert_eq!(c.registers[1], 0b1000);
    run(&mut c, &mut t, 1);
    assert_eq!(c.registers[3], 0b1000);
}

#[test]
fn shifts_modern_and_original() {
    // V1 = 5, V2 = 0x81; 8126 shifts V1 (modern) or V2 (original) right
    let rom = [0x61, 5, 0x62, 0x81, 0x81, 0x26];
    let mut t = ChipTimer::new();
    let mut c = machine(false, &rom);
    run(&mut c, &mut t, 3);
    assert_eq!((c.registers[1], c.registers[15]), (2, 1));
    let mut c = machine(true, &rom);
    run(&mut c, &mut t, 3);
    assert_eq!((c.registers[1], c.registers[15]), (0x40, 1));
    let rom = [0x61, 0x81, 0x62, 5, 0x81, 0x2E];
    let mut c = machine(false, &rom);
    run(&mut c, &mut t, 3);
    assert_eq!((c.registers[1], c.registers[15]), (0x02, 1));
    let mut c = machine(true, &rom);
    run(&mut c, &mut t, 3);
    assert_eq!((c.registers[1], c.registers[15]), (10, 0));
}

#[test]
fn skips_and_jumps() {
    // 3105: skip if V1 == 5 (V1 == 0, no skip); 4105: skip if V1 != 5 (skips)
    let mut c = machine(false, &[0x31, 0x05, 0x41, 0x05, 0x00, 0x00, 0x12, 0x00]);
    let mut t = ChipTimer::new();
    step(&mut c, &mut t, None).unwrap();
    assert_eq!(c.pcounter, 0x202);
    step(&mut c, &mut t, None).unwrap();
    assert_eq!(c.pcounter, 0x206);
    step(&mut c, &mut t, None).unwrap();
    assert_eq!(c.pcounter, 0x200);
}

#[test]
fn register_compare_skips() {
    let mut c = machine(false, &[0x51, 0x20, 0x00, 0x00, 0x61, 0x01, 0x91, 0x20]);
    let mut t = ChipTimer::new();
    step(&mut c, &mut t, None).unwrap();
    assert_eq!(c.pcounter, 0x204);
    run(&mut c, &mut t, 2);
    assert_eq!(c.pcounter, 0x20A);
}

#[test]
fn call_and_return() {
    let mut c = machine(false, &[0x22, 0x04, 0x00, 0x00, 0x00, 0xEE]);
    let mut t = ChipTimer::new();
    step(&mut c, &mut t, None).unwrap();
    assert_eq!(c.pcounter, 0x204);
    assert_eq!(c.stack, vec![0x202]);
    step(&mut c, &mut t, None).unwrap();
    assert_eq!(c.pcounter, 0x202);
    assert!(c.stack.is_empty());
}

#[test]
fn return_with_empty_stack_cannot_run() {
    let c = machine(false, &[0x00, 0xEE]);
    assert!(!c.can_cycle(&None));
}

#[test]
fn fetch_past_memory_cannot_run() {
    let mut c = Chip8::new(false);
    c.pcounter = 4095;
    assert!(!c.can_cycle(&None));
    c.pcounter = 4094;
    assert!(c.can_cycle(&None));
}

#[test]
fn index_and_offset_jumps() {
    let rom = [0xA1, 0x23, 0x60, 0x10, 0x61, 0x20, 0xB1, 0x00];
    let mut t = ChipTimer::new();
    let mut c = machine(true, &rom);
    run(&mut c, &mut t, 4);
    assert_eq!(c.index_reg, 0x123);
    assert_eq!(c.pcounter, 0x110);
    let mut c = machine(false, &rom);
    run(&mut c, &mut t, 4);
    assert_eq!(c.pcounter, 0x120);
}

#[test]
fn random_is_masked() {
    let mut c = machine(false, &[0xC1, 0x00, 0xC2, 0x0F]);
    let mut t = ChipTimer::new();
    run(&mut c, &mut t, 2);
    assert_eq!(c.registers[1], 0);
    assert!(c.registers[2] <= 0x0F);
}

#[test]
fn unknown_instruction_is_reported() {
    let mut c = machine(false, &[0x00, 0x00]);
    let mut t = ChipTimer::new();
    match step(&mut c, &mut t, None) {
        Err(Chip8Error::UnknownInstruction(d)) => assert_eq!((d.n1, d.nnn), (0, 0)),
        other => panic!("unexpected {:?}", other),
    }
    assert_eq!(c.pcounter, 0x202);
    let mut c = machine(false, &[0x5A, 0xB1]);
    assert!(step(&mut c, &mut t, None).is_ok());
    let mut c = machine(false, &[0xF0, 0xFF]);
    assert!(matches!(step(&mut c, &mut t, None), Err(Chip8Error::UnknownInstruction(_))));
}

#[test]
fn draw_font_digit_and_collide() {
    // V0 = 0 (digit), FX29 points I at it, V1 = 2, V2 = 3, D125 draws it at (2, 3)
    let rom = [0x60, 0x00, 0xF0, 0x29, 0x61, 0x02, 0x62, 0x03, 0xD1, 0x25, 0xD1, 0x25];
    let mut c = machine(false, &rom);
    let mut t = ChipTimer::new();
    run(&mut c, &mut t, 4);
    assert_eq!(c.index_reg, 0);
    assert_eq!(step(&mut c, &mut t, None), Ok(true));
    assert_eq!(c.registers[15], 0);
    // first row of "0" is 0xF0: pixels (2..6, 3) lit
    for col in 0..64 {
        assert_eq!(c.display[3 * 64 + col], (2..6).contains(&col));
    }
    // second row 0x90: pixels 2 and 5
    for col in 0..64 {
        assert_eq!(c.display[4 * 64 + col], col == 2 || col == 5);
    }
    assert_eq!(c.display.iter().filter(|&&p| p).count(), 14);
    assert_eq!(step(&mut c, &mut t, None), Ok(true));
    assert_eq!(c.registers[15], 1);
    assert!(c.display.iter().all(|&p| !p));
}

#[test]
fn draw_wraps_around_edges() {
    // I -> font "0", V1 = 62, V2 = 31
    let rom = [0xA0, 0x00, 0x61, 62, 0x62, 31, 0xD1, 0x22];
    let mut c = machine(false, &rom);
    let mut t = ChipTimer::new();
    run(&mut c, &mut t, 4);
    // row 0xF0 at y = 31, x = 62, 63, 0, 1
    for col in [62usize, 63, 0, 1] {
        assert!(c.display[31 * 64 + col]);
    }
    // row 0x90 wraps to y = 0: x = 62 and 1
    assert!(c.display[62]);
    assert!(c.display[1]);
    assert!(!c.display[63]);
    assert!(!c.display[0]);
    assert_eq!(c.display.iter().filter(|&&p| p).count(), 6);
}

#[test]
fn clear_screen() {
    let rom = [0xA0, 0x00, 0xD0, 0x05, 0x00, 0xE0];
    let mut c = machine(false, &rom);
    let mut t = ChipTimer::new();
    run(&mut c, &mut t, 2);
    assert!(c.display.iter().any(|&p| p));
    assert_eq!(step(&mut c, &mut t, None), Ok(true));
    assert!(c.display.iter().all(|&p| !p));
    assert_eq!(c.display.len(), CHIP8_DISPLAY_SIZE);
}

#[test]
fn key_skips() {
    let rom = [0x61, 0x04, 0xE1, 0x9E, 0x00, 0x00, 0xE1, 0xA1];
    let mut keys = [false; 16];
    keys[4] = true;
    let mut c = machine(false, &rom);
    let mut t = ChipTimer::new();
    step(&mut c, &mut t, Some(keys)).unwrap();
    assert_eq!(c.keypad, keys);
    step(&mut c, &mut t, None).unwrap();
    assert_eq!(c.pcounter, 0x206);
    step(&mut c, &mut t, Some([false; 16])).unwrap();
    assert_eq!(c.pcounter, 0x20A);
}

#[test]
fn key_with_out_of_range_register_cannot_run() {
    let mut c = machine(false, &[0x61, 0x10, 0xE1, 0x9E]);
    let mut t = ChipTimer::new();
    step(&mut c, &mut t, None).unwrap();
    assert!(!c.can_cycle(&None));
}

#[test]
fn wait_for_key() {
    let mut c = machine(false, &[0xF1, 0x0A, 0x61, 0x07]);
    let mut t = ChipTimer::new();
    step(&mut c, &mut t, None).unwrap();
    assert_eq!(c.pcounter, 0x200);
    step(&mut c, &mut t, None).unwrap();
    assert_eq!(c.pcounter, 0x200);
    let mut keys = [false; 16];
    keys[9] = true;
    step(&mut c, &mut t, Some(keys)).unwrap();
    assert_eq!(c.pcounter, 0x202);
    step(&mut c, &mut t, None).unwrap();
    assert_eq!(c.registers[1], 7);
    assert_eq!(c.pcounter, 0x204);
}

#[test]
fn timers_from_registers() {
    let rom = [0x61, 0x05, 0xF1, 0x15, 0xF1, 0x18, 0xF2, 0x07];
    let mut c = machine(false, &rom);
    let mut t = ChipTimer::new();
    run(&mut c, &mut t, 3);
    assert_eq!(t.read_dt(), 5);
    t.tick();
    assert!(t.should_beep());
    run(&mut c, &mut t, 1);
    assert_eq!(c.registers[2], 4);
}

#[test]
fn index_add() {
    let mut c = machine(false, &[0xA1, 0x00, 0x61, 0x30, 0xF1, 0x1E]);
    let mut t = ChipTimer::new();
    run(&mut c, &mut t, 3);
    assert_eq!(c.index_reg, 0x130);
}

#[test]
fn index_add_overflow_cannot_run() {
    let mut c = machine(false, &[0x61, 0x30, 0xF1, 0x1E]);
    let mut t = ChipTimer::new();
    step(&mut c, &mut t, None).unwrap();
    c.index_reg = 0xFFF0;
    assert!(!c.can_cycle(&None));
}

#[test]
fn bcd_of_register() {
    let mut c = machine(false, &[0x61, 254, 0xA3, 0x00, 0xF1, 0x33]);
    let mut t = ChipTimer::new();
    run(&mut c, &mut t, 3);
    assert_eq!(&c.memory[0x300..0x303], &[2, 5, 4]);
    let mut c = machine(false, &[0x61, 7, 0xA3, 0x00, 0xF1, 0x33]);
    run(&mut c, &mut t, 3);
    assert_eq!(&c.memory[0x300..0x303], &[0, 0, 7]);
}

#[test]
fn store_and_load_registers() {
    let rom = [0x60, 1, 0x61, 2, 0x62, 3, 0xA3, 0x00, 0xF2, 0x55, 0x60, 0, 0x61, 0, 0x62, 0, 0xF2, 0x65];
    let mut c = machine(false, &rom);
    let mut t = ChipTimer::new();
    run(&mut c, &mut t, 5);
    assert_eq!(&c.memory[0x300..0x304], &[1, 2, 3, 0]);
    assert_eq!(c.index_reg, 0x300);
    run(&mut c, &mut t, 4);
    assert_eq!(&c.registers[0..4], &[1, 2, 3, 0]);
    let mut c = machine(true, &rom);
    run(&mut c, &mut t, 5);
    assert_eq!(c.index_reg, 0x303);
}

#[test]
fn store_past_memory_cannot_run() {
    let mut c = machine(false, &[0xFF, 0x55]);
    c.index_reg = 4090;
    assert!(!c.can_cycle(&None));
    c.index_reg = 4080;
    assert!(c.can_cycle(&None));
}

#[test]
fn font_address_of_digit() {
    // V1 = 0x1A: low nibble A, sprite at 50
    let mut c = machine(false, &[0x61, 0x1A, 0xF1, 0x29]);
    let mut t = ChipTimer::new();
    run(&mut c, &mut t, 2);
    assert_eq!(c.index_reg, 50);
    let i = c.index_reg as usize;
    assert_eq!(&c.memory[i..i + 5], &FONTSET[50..55]);
    assert_eq!(&c.memory[i..i + 5], &[0xF0, 0x90, 0xF0, 0x90, 0x90]);
}

#[test]
fn shifts_keep_their_bits() {
    for v in [0u8, 1, 2, 0x7F, 0x80, 0x81, 0xFF] {
        let mut c = machine(false, &[0x61, v, 0x81, 0x06]);
        let mut t = ChipTimer::new();
        run(&mut c, &mut t, 2);
        assert_eq!(2 * c.registers[1] as u16 + c.registers[15] as u16, v as u16);
        let mut c = machine(false, &[0x61, v, 0x81, 0x0E]);
        run(&mut c, &mut t, 2);
        assert_eq!(c.registers[1] as u16 + 256 * c.registers[15] as u16, 2 * v as u16);
    }
}

#[test]
fn only_clear_and_draw_report_display_changes() {
    let mut c = machine(false, &[0x61, 0x05, 0xA0, 0x00, 0xD1, 0x11, 0x71, 0x01, 0x00, 0xE0]);
    let mut t = ChipTimer::new();
    assert_eq!(step(&mut c, &mut t, None), Ok(false));
    assert_eq!(step(&mut c, &mut t, None), Ok(false));
    assert_eq!(step(&mut c, &mut t, None), Ok(true));
    let shown = c.display;
    assert_eq!(step(&mut c, &mut t, None), Ok(false));
    assert_eq!(c.display, shown);
    assert_eq!(step(&mut c, &mut t, None), Ok(true));
}
