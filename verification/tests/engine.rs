use chip8::chip8::Chip8;
use chip8::Chip8Error;

fn machine_with_rom(rom: &[u8]) -> Chip8 {
    let mut c = Chip8::new();
    c.load_sprites();
    let data: Vec<u8> = rom.to_vec();
    c.load_rom(&data).unwrap();
    c
}

#[test]
fn set_register_immediate() {
    // 6A42: vA = 0x42, pc advances by 2
    let mut c = machine_with_rom(&[0x6A, 0x42]);
    c.run().unwrap();
    assert_eq!(c.cpu.vx[10], 0x42);
    assert_eq!(c.cpu.pc, 0x202);
}

#[test]
fn set_register_immediate_other_register() {
    // 6007: v0 = 7
    let mut c = machine_with_rom(&[0x60, 0x07]);
    c.run().unwrap();
    assert_eq!(c.cpu.vx[0], 0x07);
    assert_eq!(c.cpu.pc, 0x202);
}

#[test]
fn add_registers_overflow_sets_vf() {
    // 8014: v0 = v0 + v1 wrapping, vF = carry
    let mut c = machine_with_rom(&[0x80, 0x14]);
    c.cpu.vx[0] = 0xFF;
    c.cpu.vx[1] = 0x01;
    c.run().unwrap();
    assert_eq!(c.cpu.vx[0], 0x00);
    assert_eq!(c.cpu.vx[15], 1);
}

#[test]
fn add_registers_no_overflow_clears_vf() {
    let mut c = machine_with_rom(&[0x80, 0x14]);
    c.cpu.vx[0] = 0x02;
    c.cpu.vx[1] = 0x03;
    c.cpu.vx[15] = 1;
    c.run().unwrap();
    assert_eq!(c.cpu.vx[0], 0x05);
    assert_eq!(c.cpu.vx[15], 0);
}

#[test]
fn sub_registers_borrow_clears_vf() {
    // 8015: v0 = v0 - v1 wrapping, vF = 0 on borrow
    let mut c = machine_with_rom(&[0x80, 0x15]);
    c.cpu.vx[0] = 0x01;
    c.cpu.vx[1] = 0x02;
    c.run().unwrap();
    assert_eq!(c.cpu.vx[0], 0xFF);
    assert_eq!(c.cpu.vx[15], 0);
}

#[test]
fn sub_registers_no_borrow_sets_vf() {
    let mut c = machine_with_rom(&[0x80, 0x15]);
    c.cpu.vx[0] = 0x05;
    c.cpu.vx[1] = 0x02;
    c.run().unwrap();
    assert_eq!(c.cpu.vx[0], 0x03);
    assert_eq!(c.cpu.vx[15], 1);
}

#[test]
fn call_then_return_restores_pc() {
    // 2ABC at 0x200 pushes 0x202 and jumps to 0xABC; 00EE there returns.
    let mut c = machine_with_rom(&[0x2A, 0xBC]);
    c.run().unwrap();
    assert_eq!(c.cpu.pc, 0xABC);
    assert_eq!(c.cpu.sp, 1);
    assert_eq!(c.cpu.stack[0], 0x202);
    c.ram.write_byte(0xABC, 0x00).unwrap();
    c.ram.write_byte(0xABD, 0xEE).unwrap();
    c.run().unwrap();
    assert_eq!(c.cpu.pc, 0x202);
    assert_eq!(c.cpu.sp, 0);
}

#[test]
fn jump_with_offset() {
    // BNNN: pc = nnn + v0
    let mut c = machine_with_rom(&[0xB3, 0x00]);
    c.cpu.vx[0] = 0x10;
    c.run().unwrap();
    assert_eq!(c.cpu.pc, 0x310);
}

#[test]
fn plain_jump() {
    let mut c = machine_with_rom(&[0x15, 0x55]);
    c.run().unwrap();
    assert_eq!(c.cpu.pc, 0x555);
}

#[test]
fn draw_twice_erases_and_reports_collision() {
    // D011: one-row sprite at (v0, v1)
    let mut c = machine_with_rom(&[0xD0, 0x11]);
    c.cpu.index = 0x300;
    c.ram.write_byte(0x300, 0xFF).unwrap();
    c.run().unwrap();
    assert_eq!(c.cpu.vx[15], 0);
    for x in 0..8 {
        assert!(c.display.screen[x]);
    }
    c.cpu.pc = 0x200;
    c.run().unwrap();
    assert_eq!(c.cpu.vx[15], 1);
    for x in 0..2048 {
        assert!(!c.display.screen[x]);
    }
}

#[test]
fn draw_wraps_at_screen_edge() {
    let mut c = machine_with_rom(&[0xD0, 0x11]);
    c.cpu.vx[0] = 60;
    c.cpu.vx[1] = 31;
    c.cpu.index = 0x300;
    c.ram.write_byte(0x300, 0xFF).unwrap();
    c.run().unwrap();
    let row = 31 * 64;
    for col in [60, 61, 62, 63, 0, 1, 2, 3] {
        assert!(c.display.screen[row + col]);
    }
    assert!(!c.display.screen[row + 4]);
    assert!(!c.display.screen[row + 59]);
}

#[test]
fn dump_then_load_round_trip() {
    // F355 stores v0..v3 at the index; F365 reads them back.
    let mut c = machine_with_rom(&[0xF3, 0x55, 0xF3, 0x65]);
    c.cpu.vx[0] = 12;
    c.cpu.vx[1] = 34;
    c.cpu.vx[2] = 56;
    c.cpu.vx[3] = 78;
    c.cpu.index = 0x300;
    c.run().unwrap();
    assert_eq!(c.ram.read_byte(0x300).unwrap(), 12);
    assert_eq!(c.ram.read_byte(0x301).unwrap(), 34);
    assert_eq!(c.ram.read_byte(0x302).unwrap(), 56);
    assert_eq!(c.ram.read_byte(0x303).unwrap(), 78);
    assert_eq!(c.cpu.index, 0x304);
    for i in 0..4 {
        c.cpu.vx[i] = 0;
    }
    c.cpu.index = 0x300;
    c.run().unwrap();
    assert_eq!(c.cpu.vx[0], 12);
    assert_eq!(c.cpu.vx[1], 34);
    assert_eq!(c.cpu.vx[2], 56);
    assert_eq!(c.cpu.vx[3], 78);
    assert_eq!(c.cpu.index, 0x304);
}

#[test]
fn bcd_digits() {
    // F233: decimal digits of v2 at index, index+1, index+2
    let mut c = machine_with_rom(&[0xF2, 0x33]);
    c.cpu.vx[2] = 157;
    c.cpu.index = 0x500;
    c.run().unwrap();
    assert_eq!(c.ram.read_byte(0x500).unwrap(), 1);
    assert_eq!(c.ram.read_byte(0x501).unwrap(), 5);
    assert_eq!(c.ram.read_byte(0x502).unwrap(), 7);
    assert_eq!(c.cpu.index, 0x500);
}

#[test]
fn read_out_of_range_fails() {
    let mut c = Chip8::new();
    assert_eq!(c.ram.read_byte(4096), Err(Chip8Error::AddressOutOfRange));
    assert_eq!(c.ram.read_byte(4095), Ok(0));
}

#[test]
fn write_out_of_range_fails() {
    let mut c = Chip8::new();
    assert_eq!(c.ram.write_byte(4096, 1), Err(Chip8Error::AddressOutOfRange));
    assert_eq!(c.ram.write_byte(4095, 1), Ok(()));
    assert_eq!(c.ram.read_byte(4095), Ok(1));
}

#[test]
fn font_is_loaded_at_its_base() {
    let mut c = Chip8::new();
    c.load_sprites();
    assert_eq!(c.ram.read_byte(0x50).unwrap(), 0xF0);
    assert_eq!(c.ram.read_byte(0x54).unwrap(), 0xF0);
    assert_eq!(c.ram.read_byte(0x55).unwrap(), 0x20);
    assert_eq!(c.ram.read_byte(0x9F).unwrap(), 0x80);
    assert_eq!(c.ram.read_byte(0xA0).unwrap(), 0x00);
}

#[test]
fn rom_that_does_not_fit_is_refused() {
    let mut c = Chip8::new();
    let too_big: Vec<u8> = vec![0xAA; 3585];
    assert_eq!(c.load_rom(&too_big), Err(Chip8Error::RomLoadError));
    assert_eq!(c.ram.read_byte(0x200).unwrap(), 0);
    let just_fits: Vec<u8> = vec![0xAA; 3584];
    assert_eq!(c.load_rom(&just_fits), Ok(()));
    assert_eq!(c.ram.read_byte(0xFFF).unwrap(), 0xAA);
}

#[test]
fn unknown_instructions_are_fatal() {
    let mut c = machine_with_rom(&[0xFF, 0xFF]);
    assert_eq!(c.run(), Err(Chip8Error::UnknownInstruction));
    assert_eq!(c.cpu.pc, 0x200);
    let mut c2 = machine_with_rom(&[0x5A, 0xB1]);
    assert_eq!(c2.run(), Err(Chip8Error::UnknownInstruction));
    let mut c3 = machine_with_rom(&[0x80, 0x19]);
    assert_eq!(c3.run(), Err(Chip8Error::UnknownInstruction));
    // Only the exact words 00E0 and 00EE carry the system operations.
    let mut c4 = machine_with_rom(&[0x01, 0xE0]);
    assert_eq!(c4.run(), Err(Chip8Error::UnknownInstruction));
    let mut c5 = machine_with_rom(&[0x9A, 0xB4]);
    assert_eq!(c5.run(), Err(Chip8Error::UnknownInstruction));
}

#[test]
fn return_with_empty_stack_fails() {
    let mut c = machine_with_rom(&[0x00, 0xEE]);
    assert_eq!(c.run(), Err(Chip8Error::StackUnderflow));
    assert_eq!(c.cpu.pc, 0x200);
}

#[test]
fn call_with_full_stack_fails() {
    let mut c = machine_with_rom(&[0x2A, 0xBC]);
    c.cpu.sp = 16;
    assert_eq!(c.run(), Err(Chip8Error::StackOverflow));
    assert_eq!(c.cpu.pc, 0x200);
}

#[test]
fn skip_if_key_pressed() {
    let mut c = machine_with_rom(&[0xE0, 0x9E]);
    c.cpu.vx[0] = 4;
    c.keypad.keys[4] = true;
    c.run().unwrap();
    assert_eq!(c.cpu.pc, 0x204);
    let mut c2 = machine_with_rom(&[0xE0, 0x9E]);
    c2.cpu.vx[0] = 4;
    c2.run().unwrap();
    assert_eq!(c2.cpu.pc, 0x202);
}

#[test]
fn skip_if_key_not_pressed() {
    let mut c = machine_with_rom(&[0xE0, 0xA1]);
    c.cpu.vx[0] = 4;
    c.run().unwrap();
    assert_eq!(c.cpu.pc, 0x204);
    let mut c2 = machine_with_rom(&[0xE0, 0xA1]);
    c2.cpu.vx[0] = 4;
    c2.keypad.keys[4] = true;
    c2.run().unwrap();
    assert_eq!(c2.cpu.pc, 0x202);
}

#[test]
fn key_code_out_of_range_fails() {
    let mut c = machine_with_rom(&[0xE0, 0x9E]);
    c.cpu.vx[0] = 20;
    assert_eq!(c.run(), Err(Chip8Error::KeyOutOfRange));
}

#[test]
fn wait_for_key_stalls_until_one_is_down() {
    let mut c = machine_with_rom(&[0xF5, 0x0A]);
    c.run().unwrap();
    assert_eq!(c.cpu.pc, 0x200);
    c.run().unwrap();
    assert_eq!(c.cpu.pc, 0x200);
    c.keypad.keys[7] = true;
    c.run().unwrap();
    assert_eq!(c.cpu.vx[5], 7);
    assert_eq!(c.cpu.pc, 0x202);
}

#[test]
fn wait_for_key_takes_the_lowest_pressed() {
    let mut c = machine_with_rom(&[0xF0, 0x0A]);
    c.keypad.keys[9] = true;
    c.keypad.keys[3] = true;
    c.run().unwrap();
    assert_eq!(c.cpu.vx[0], 3);
}

#[test]
fn random_is_masked_by_the_immediate() {
    // CX00 masks every random byte down to zero; CX0F keeps only low bits.
    let mut c = machine_with_rom(&[0xC0, 0x00]);
    c.cpu.vx[0] = 0xAA;
    c.run().unwrap();
    assert_eq!(c.cpu.vx[0], 0);
    for _ in 0..20 {
        let mut c2 = machine_with_rom(&[0xC0, 0x0F]);
        c2.run().unwrap();
        assert!(c2.cpu.vx[0] < 16);
    }
}

#[test]
fn timers_are_read_and_written() {
    // F015: dt = v0; F007: v0 = dt; F018: st = v0
    let mut c = machine_with_rom(&[0xF0, 0x15, 0xF1, 0x07, 0xF0, 0x18]);
    c.cpu.vx[0] = 42;
    c.run().unwrap();
    assert_eq!(c.cpu.dt, 42);
    c.run().unwrap();
    assert_eq!(c.cpu.vx[1], 42);
    c.run().unwrap();
    assert_eq!(c.cpu.st, 42);
}

#[test]
fn shifts_use_vx_and_report_the_shifted_bit() {
    // 8XY6 keeps the low bit in vF, 8XYE the high bit.
    let mut c = machine_with_rom(&[0x80, 0x16]);
    c.cpu.vx[0] = 0x05;
    c.run().unwrap();
    assert_eq!(c.cpu.vx[0], 0x02);
    assert_eq!(c.cpu.vx[15], 1);
    let mut c2 = machine_with_rom(&[0x80, 0x1E]);
    c2.cpu.vx[0] = 0x81;
    c2.cpu.vx[1] = 0xFF; // vy plays no part
    c2.run().unwrap();
    assert_eq!(c2.cpu.vx[0], 0x02);
    assert_eq!(c2.cpu.vx[15], 1);
}

#[test]
fn add_immediate_wraps_without_touching_vf() {
    let mut c = machine_with_rom(&[0x70, 0x02]);
    c.cpu.vx[0] = 0xFF;
    c.run().unwrap();
    assert_eq!(c.cpu.vx[0], 0x01);
    assert_eq!(c.cpu.vx[15], 0);
}

#[test]
fn clear_screen_turns_every_pixel_off() {
    let mut c = machine_with_rom(&[0x00, 0xE0]);
    c.display.screen[0] = true;
    c.display.screen[2047] = true;
    c.run().unwrap();
    for i in 0..2048 {
        assert!(!c.display.screen[i]);
    }
    assert_eq!(c.cpu.pc, 0x202);
}

#[test]
fn fetch_is_big_endian_and_bounds_checked() {
    let mut c = machine_with_rom(&[0x12, 0x34]);
    assert_eq!(c.get_instruction(), Ok(0x1234));
    c.cpu.pc = 4095;
    assert_eq!(c.get_instruction(), Err(Chip8Error::AddressOutOfRange));
    c.cpu.pc = 4095;
    assert_eq!(c.run(), Err(Chip8Error::AddressOutOfRange));
}

#[test]
fn add_to_index() {
    let mut c = machine_with_rom(&[0xF0, 0x1E]);
    c.cpu.index = 0x100;
    c.cpu.vx[0] = 0x20;
    c.run().unwrap();
    assert_eq!(c.cpu.index, 0x120);
}

#[test]
fn font_index_points_at_the_glyph() {
    let mut c = machine_with_rom(&[0xF0, 0x29]);
    c.cpu.vx[0] = 0xA;
    c.run().unwrap();
    assert_eq!(c.cpu.index, 0x50 + 50);
}

#[test]
fn skips_on_immediates_and_registers() {
    let mut c = machine_with_rom(&[0x30, 0x07]);
    c.cpu.vx[0] = 7;
    c.run().unwrap();
    assert_eq!(c.cpu.pc, 0x204);
    let mut c2 = machine_with_rom(&[0x40, 0x07]);
    c2.cpu.vx[0] = 7;
    c2.run().unwrap();
    assert_eq!(c2.cpu.pc, 0x202);
    let mut c3 = machine_with_rom(&[0x50, 0x10]);
    c3.cpu.vx[0] = 9;
    c3.cpu.vx[1] = 9;
    c3.run().unwrap();
    assert_eq!(c3.cpu.pc, 0x204);
    let mut c4 = machine_with_rom(&[0x90, 0x10]);
    c4.cpu.vx[0] = 9;
    c4.cpu.vx[1] = 8;
    c4.run().unwrap();
    assert_eq!(c4.cpu.pc, 0x204);
}

#[test]
fn register_copy_and_bit_operations() {
    let mut c = machine_with_rom(&[0x80, 0x10, 0x82, 0x31, 0x84, 0x52, 0x86, 0x73]);
    c.cpu.vx[1] = 0x5A;
    c.cpu.vx[2] = 0x0F;
    c.cpu.vx[3] = 0xF0;
    c.cpu.vx[4] = 0x3C;
    c.cpu.vx[5] = 0x0F;
    c.cpu.vx[6] = 0x3C;
    c.cpu.vx[7] = 0x0F;
    c.run().unwrap();
    assert_eq!(c.cpu.vx[0], 0x5A);
    c.run().unwrap();
    assert_eq!(c.cpu.vx[2], 0xFF);
    c.run().unwrap();
    assert_eq!(c.cpu.vx[4], 0x0C);
    c.run().unwrap();
    assert_eq!(c.cpu.vx[6], 0x33);
}

#[test]
fn subtract_from_the_other_side() {
    // 8XY7: vx = vy - vx, vF = 1 when no borrow
    let mut c = machine_with_rom(&[0x80, 0x17]);
    c.cpu.vx[0] = 0x02;
    c.cpu.vx[1] = 0x05;
    c.run().unwrap();
    assert_eq!(c.cpu.vx[0], 0x03);
    assert_eq!(c.cpu.vx[15], 1);
    let mut c2 = machine_with_rom(&[0x80, 0x17]);
    c2.cpu.vx[0] = 0x05;
    c2.cpu.vx[1] = 0x02;
    c2.run().unwrap();
    assert_eq!(c2.cpu.vx[0], 0xFD);
    assert_eq!(c2.cpu.vx[15], 0);
}

#[test]
fn set_index_register() {
    let mut c = machine_with_rom(&[0xA1, 0x23]);
    c.run().unwrap();
    assert_eq!(c.cpu.index, 0x123);
    assert_eq!(c.cpu.pc, 0x202);
}

#[test]
fn register_dump_out_of_range_changes_nothing() {
    let mut c = machine_with_rom(&[0xF3, 0x55]);
    c.cpu.index = 4094;
    c.cpu.vx[0] = 9;
    assert_eq!(c.run(), Err(Chip8Error::AddressOutOfRange));
    assert_eq!(c.ram.read_byte(4094).unwrap(), 0);
    assert_eq!(c.cpu.index, 4094);
    assert_eq!(c.cpu.pc, 0x200);
}

#[test]
fn draw_reading_past_memory_changes_nothing() {
    let mut c = machine_with_rom(&[0xD0, 0x12]);
    c.cpu.index = 4095;
    assert_eq!(c.run(), Err(Chip8Error::AddressOutOfRange));
    for i in 0..2048 {
        assert!(!c.display.screen[i]);
    }
}

#[test]
fn collision_flag_is_not_cleared_by_a_clean_draw() {
    // A draw that hits nothing leaves an earlier vF = 1 alone.
    let mut c = machine_with_rom(&[0xD0, 0x11]);
    c.cpu.vx[15] = 1;
    c.cpu.index = 0x300;
    c.ram.write_byte(0x300, 0x80).unwrap();
    c.run().unwrap();
    assert_eq!(c.cpu.vx[15], 1);
    assert!(c.display.screen[0]);
}
