use chip8::machine::{MAX_ROM_SIZE, PROGRAM_START};
use chip8::{decode, Chip8, Chip8Error, Instruction};

fn loaded(rom: &[u8]) -> Chip8 {
    let mut m = Chip8::new();
    m.load(rom).unwrap();
    m
}

fn run(m: &mut Chip8, steps: usize) {
    for _ in 0..steps {
        m.step(0).unwrap();
    }
}

#[test]
fn new_machine_state() {
    let m = Chip8::new();
    assert_eq!(m.pc(), 0x200);
    assert_eq!(m.index(), 0);
    assert_eq!(m.memory_at(0), 0xf0);
    assert_eq!(m.memory_at(5), 0x20);
    assert_eq!(m.memory_at(79), 0x80);
    assert_eq!(m.memory_at(80), 0);
    assert!(m.get_display().iter().all(|&p| p == 0));
    assert_eq!(m.get_display().len(), 2048);
}

#[test]
fn end_to_end_add_program() {
    let mut m = loaded(&[0x60, 0x0A, 0x61, 0x05, 0x80, 0x14, 0x00, 0x00]);
    run(&mut m, 3);
    assert_eq!(m.register(0), 0x0F);
    assert_eq!(m.register(0xF), 0);
    assert_eq!(m.pc(), 0x206);
}

#[test]
fn add_reg_sets_carry() {
    let mut m = loaded(&[0x60, 0xFF, 0x61, 0x01, 0x80, 0x14]);
    run(&mut m, 3);
    assert_eq!(m.register(0), 0x00);
    assert_eq!(m.register(0xF), 1);
}

#[test]
fn add_reg_without_carry() {
    let mut m = loaded(&[0x60, 0x01, 0x61, 0x01, 0x80, 0x14]);
    run(&mut m, 3);
    assert_eq!(m.register(0), 0x02);
    assert_eq!(m.register(0xF), 0);
}

#[test]
fn sub_reg_without_borrow() {
    let mut m = loaded(&[0x60, 0x05, 0x61, 0x03, 0x80, 0x15]);
    run(&mut m, 3);
    assert_eq!(m.register(0), 0x02);
    assert_eq!(m.register(0xF), 1);
}

#[test]
fn sub_reg_with_borrow() {
    let mut m = loaded(&[0x60, 0x03, 0x61, 0x05, 0x80, 0x15]);
    run(&mut m, 3);
    assert_eq!(m.register(0), 0xFE);
    assert_eq!(m.register(0xF), 0);
}

#[test]
fn sub_neg_reg() {
    let mut m = loaded(&[0x60, 0x03, 0x61, 0x05, 0x80, 0x17]);
    run(&mut m, 3);
    assert_eq!(m.register(0), 0x02);
    assert_eq!(m.register(0xF), 1);
}

#[test]
fn shifts_report_lost_bit() {
    let mut m = loaded(&[0x60, 0x81, 0x61, 0x81, 0x80, 0x06, 0x81, 0x0E]);
    run(&mut m, 3);
    assert_eq!(m.register(0), 0x40);
    assert_eq!(m.register(0xF), 1);
    run(&mut m, 1);
    assert_eq!(m.register(1), 0x02);
    assert_eq!(m.register(0xF), 1);
}

#[test]
fn logic_and_add_byte() {
    let mut m = loaded(&[0x60, 0x0C, 0x61, 0x0A, 0x82, 0x00, 0x82, 0x11, 0x83, 0x00, 0x83, 0x12, 0x84, 0x00, 0x84, 0x13, 0x70, 0xFF]);
    run(&mut m, 9);
    assert_eq!(m.register(2), 0x0E);
    assert_eq!(m.register(3), 0x08);
    assert_eq!(m.register(4), 0x06);
    assert_eq!(m.register(0), 0x0B);
}

#[test]
fn jump_with_offset() {
    let mut m = loaded(&[0x60, 0x10, 0xB3, 0x00]);
    run(&mut m, 2);
    assert_eq!(m.pc(), 0x310);
}

#[test]
fn store_bcd_digits() {
    let mut m = loaded(&[0x60, 157, 0xA3, 0x00, 0xF0, 0x33]);
    run(&mut m, 3);
    assert_eq!(m.memory_at(0x300), 1);
    assert_eq!(m.memory_at(0x301), 5);
    assert_eq!(m.memory_at(0x302), 7);
}

#[test]
fn store_and_load_registers() {
    let mut m = loaded(&[0x60, 0x11, 0x61, 0x22, 0x62, 0x33, 0xA4, 0x00, 0xF1, 0x55, 0x60, 0x00, 0x61, 0x00, 0xF2, 0x65]);
    run(&mut m, 5);
    assert_eq!(m.memory_at(0x400), 0x11);
    assert_eq!(m.memory_at(0x401), 0x22);
    assert_eq!(m.memory_at(0x402), 0);
    run(&mut m, 3);
    assert_eq!(m.register(0), 0x11);
    assert_eq!(m.register(1), 0x22);
    assert_eq!(m.register(2), 0);
}

#[test]
fn index_arithmetic_and_font() {
    let mut m = loaded(&[0x60, 0x0A, 0xF0, 0x29, 0xF0, 0x1E]);
    run(&mut m, 2);
    assert_eq!(m.index(), 50);
    run(&mut m, 1);
    assert_eq!(m.index(), 60);
}

#[test]
fn add_index_wraps_at_sixteen_bits() {
    let mut m = loaded(&[0xAF, 0xFF, 0x60, 0xFF, 0xF0, 0x1E, 0x12, 0x04]);
    run(&mut m, 2 + 240 * 2);
    assert_eq!(m.index(), 4095 + 240 * 255);
    run(&mut m, 1);
    assert_eq!(m.index(), 14);
}

#[test]
fn skips_compare_registers_and_bytes() {
    let mut m = loaded(&[0x60, 0x05, 0x30, 0x05, 0x00, 0x00, 0x40, 0x05, 0x61, 0x05, 0x50, 0x10, 0x00, 0x00, 0x90, 0x10]);
    run(&mut m, 2);
    assert_eq!(m.pc(), 0x206);
    run(&mut m, 1);
    assert_eq!(m.pc(), 0x208);
    run(&mut m, 2);
    assert_eq!(m.pc(), 0x20E);
    run(&mut m, 1);
    assert_eq!(m.pc(), 0x210);
}

#[test]
fn call_and_return() {
    let mut m = loaded(&[0x23, 0x00]);
    m.step(0).unwrap();
    assert_eq!(m.pc(), 0x300);
    let mut n = loaded(&[0x22, 0x04, 0x00, 0x00, 0x00, 0xEE]);
    run(&mut n, 2);
    assert_eq!(n.pc(), 0x202);
}

#[test]
fn return_without_call_underflows() {
    let mut m = loaded(&[0x00, 0xEE]);
    assert_eq!(m.step(0), Err(Chip8Error::StackUnderflow));
    assert_eq!(m.pc(), 0x200);
}

#[test]
fn deep_calls_overflow() {
    let mut m = loaded(&[0x22, 0x00]);
    run(&mut m, 16);
    assert_eq!(m.step(0), Err(Chip8Error::StackOverflow));
    assert_eq!(m.pc(), 0x200);
}

#[test]
fn fetch_past_memory_fails() {
    let mut m = loaded(&[0x1F, 0xFF]);
    run(&mut m, 1);
    assert_eq!(m.pc(), 0xFFF);
    assert_eq!(m.step(0), Err(Chip8Error::AddressOutOfRange));
    assert_eq!(m.pc(), 0xFFF);
}

#[test]
fn bcd_past_memory_fails() {
    let mut m = loaded(&[0xAF, 0xFE, 0xF0, 0x33]);
    run(&mut m, 1);
    assert_eq!(m.step(0), Err(Chip8Error::AddressOutOfRange));
    assert_eq!(m.pc(), 0x202);
}

#[test]
fn rom_too_large_is_refused() {
    let mut m = Chip8::new();
    let rom = vec![0x12u8; MAX_ROM_SIZE + 1];
    assert_eq!(m.load(&rom), Err(Chip8Error::RomTooLarge));
    assert_eq!(m.memory_at(PROGRAM_START as usize), 0);
    let fits = vec![0x12u8; MAX_ROM_SIZE];
    assert_eq!(m.load(&fits), Ok(()));
    assert_eq!(m.memory_at(0xFFF), 0x12);
}

#[test]
fn unknown_opcode_is_skipped() {
    let mut m = loaded(&[0x50, 0x01, 0x60, 0x07]);
    assert_eq!(m.step(0), Ok(Instruction::Unknown { opcode: 0x5001 }));
    assert_eq!(m.pc(), 0x202);
    run(&mut m, 1);
    assert_eq!(m.register(0), 7);
}

#[test]
fn timers_count_down_to_zero() {
    let mut m = loaded(&[0x60, 0x02, 0xF0, 0x15, 0xF0, 0x18, 0x60, 0x00, 0x60, 0x00, 0x60, 0x00]);
    run(&mut m, 2);
    assert_eq!(m.delay_timer(), 1);
    run(&mut m, 1);
    assert_eq!(m.delay_timer(), 0);
    assert_eq!(m.sound_timer(), 1);
    run(&mut m, 1);
    assert_eq!(m.delay_timer(), 0);
    assert_eq!(m.sound_timer(), 0);
    run(&mut m, 1);
    assert_eq!(m.sound_timer(), 0);
}

#[test]
fn load_delay_into_register() {
    let mut m = loaded(&[0x60, 0x09, 0xF0, 0x15, 0xF1, 0x07]);
    run(&mut m, 3);
    assert_eq!(m.register(1), 8);
}

#[test]
fn wait_key_blocks_until_pressed() {
    let mut m = loaded(&[0xF3, 0x0A]);
    for _ in 0..4 {
        m.step(0).unwrap();
        assert_eq!(m.pc(), 0x200);
    }
    m.set_key_pressed(9, true);
    m.set_key_pressed(5, true);
    m.step(0).unwrap();
    assert_eq!(m.register(3), 5);
    assert_eq!(m.pc(), 0x202);
}

#[test]
fn skip_on_key_state() {
    let mut m = loaded(&[0x60, 0x04, 0xE0, 0x9E, 0xE0, 0xA1, 0x00, 0x00, 0x60, 0x20, 0xE0, 0xA1]);
    run(&mut m, 3);
    assert_eq!(m.pc(), 0x208);
    let mut k = loaded(&[0x60, 0x04, 0xE0, 0x9E]);
    k.set_key_pressed(4, true);
    run(&mut k, 2);
    assert_eq!(k.pc(), 0x206);
    run(&mut m, 2);
    assert_eq!(m.pc(), 0x20E);
}

#[test]
fn draw_glyph_and_clear() {
    let mut m = loaded(&[0xA0, 0x00, 0xD0, 0x05, 0x00, 0xE0]);
    run(&mut m, 2);
    let d = m.get_display();
    assert_eq!(&d[0..4], &[1, 1, 1, 1]);
    assert_eq!(d[4], 0);
    assert_eq!(&d[64..68], &[1, 0, 0, 1]);
    assert_eq!(d.iter().filter(|&&p| p == 1).count(), 14);
    assert_eq!(m.register(0xF), 0);
    run(&mut m, 1);
    assert!(m.get_display().iter().all(|&p| p == 0));
}

#[test]
fn draw_twice_restores_screen() {
    let mut m = loaded(&[0xA0, 0x00, 0x60, 0x03, 0x61, 0x02, 0xD0, 0x15, 0xD0, 0x15]);
    run(&mut m, 4);
    assert_eq!(m.register(0xF), 0);
    assert_eq!(m.get_display()[2 * 64 + 3], 1);
    run(&mut m, 1);
    assert_eq!(m.register(0xF), 1);
    assert!(m.get_display().iter().all(|&p| p == 0));
}

#[test]
fn draw_wraps_at_edges() {
    let mut m = loaded(&[0xA0, 0x00, 0x60, 0x3E, 0x61, 0x1F, 0xD0, 0x12]);
    run(&mut m, 4);
    let d = m.get_display();
    assert_eq!(d[31 * 64 + 62], 1);
    assert_eq!(d[31 * 64 + 63], 1);
    assert_eq!(d[31 * 64], 1);
    assert_eq!(d[31 * 64 + 1], 1);
    assert_eq!(d[0 * 64 + 62], 1);
    assert_eq!(d[0 * 64 + 1], 1);
    assert_eq!(d[0 * 64 + 2], 0);
}

#[test]
fn screen_buffer_colours() {
    let mut m = loaded(&[0xA0, 0x00, 0xD0, 0x01]);
    run(&mut m, 2);
    let b = m.convert_screen_to_buffer();
    assert_eq!(b.len(), 2048);
    assert_eq!(b[0], 0xffff_ffff);
    assert_eq!(b[4], 0);
}

#[test]
fn random_uses_given_byte() {
    let mut m = loaded(&[0xC0, 0x0F, 0xC1, 0xF0]);
    m.step(0xAB).unwrap();
    m.step(0xAB).unwrap();
    assert_eq!(m.register(0), 0x0B);
    assert_eq!(m.register(1), 0xA0);
}

#[test]
fn cycle_draws_a_random_byte() {
    let mut m = loaded(&[0xC0, 0x00, 0xC1, 0x0F]);
    assert_eq!(m.cycle(), Ok(Instruction::Random { x: 0, byte: 0 }));
    assert_eq!(m.register(0), 0);
    m.cycle().unwrap();
    assert!(m.register(1) <= 0x0F);
    assert_eq!(m.pc(), 0x204);
}

#[test]
fn decode_picks_one_instruction() {
    assert_eq!(decode(0x00E0), Instruction::Clear);
    assert_eq!(decode(0x00EE), Instruction::Return);
    assert_eq!(decode(0x1ABC), Instruction::Jump { addr: 0xABC });
    assert_eq!(decode(0x8A74), Instruction::AddReg { x: 0xA, y: 7 });
    assert_eq!(decode(0x8A7E), Instruction::ShiftLeft { x: 0xA, y: 7 });
    assert_eq!(decode(0xD125), Instruction::Draw { x: 1, y: 2, height: 5 });
    assert_eq!(decode(0xE39E), Instruction::SkipIfKey { x: 3 });
    assert_eq!(decode(0xF265), Instruction::LoadRegs { x: 2 });
    assert_eq!(decode(0x8008), Instruction::Unknown { opcode: 0x8008 });
    assert_eq!(decode(0x00E1), Instruction::Unknown { opcode: 0x00E1 });
    assert_eq!(decode(0xF0FF), Instruction::Unknown { opcode: 0xF0FF });
}
