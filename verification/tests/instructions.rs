use chip8::chip8::first_key_down;
use chip8::chip8::Chip8;
use chip8::fault::Fault;
use chip8::font::FONT;
use chip8::instruction::decode;
use chip8::instruction::Instruction;

fn run(chip: &mut Chip8, opcode: u16) -> Result<(), Fault> {
    chip.opcode = opcode;
    chip.process_opcode()
}

fn lit(chip: &Chip8) -> Vec<(usize, usize)> {
    let mut on = Vec::new();
    for y in 0..32 {
        for x in 0..64 {
            if chip.gfx[y * 64 + x] {
                on.push((x, y));
            }
        }
    }
    on
}

#[test]
fn new_machine_is_switched_on() {
    let chip = Chip8::new();
    assert_eq!(chip.opcode, 0);
    assert_eq!(chip.v, [0u8; 16]);
    assert_eq!(chip.index, 0);
    assert_eq!(chip.pc, 0x200);
    assert_eq!(chip.stack.depth(), 0);
    assert_eq!(chip.stack.top(), None);
    assert!(!chip.delay_timer.is_armed());
    assert!(!chip.sound_timer.is_armed());
    assert_eq!(chip.get_delay_timer(), 0);
    assert_eq!(chip.get_sound_timer(), 0);
    assert_eq!(&chip.memory[..80], &FONT[..]);
    assert!(chip.memory[80..].iter().all(|b| *b == 0));
    assert!(chip.gfx.iter().all(|p| !*p));
    assert!(chip.keyboard.iter().all(|k| !*k));
}

#[test]
fn font_has_sixteen_glyphs_of_five_rows() {
    assert_eq!(FONT.len(), 80);
    assert_eq!(&FONT[0..5], &[0xf0, 0x90, 0x90, 0x90, 0xf0]);
    assert_eq!(&FONT[5..10], &[0x20, 0x60, 0x20, 0x20, 0x70]);
    assert_eq!(&FONT[20..25], &[0x90, 0x90, 0xf0, 0x10, 0x10]);
    assert_eq!(&FONT[25..30], &[0xf0, 0x80, 0xf0, 0x10, 0xf0]);
    assert_eq!(&FONT[75..80], &[0xf0, 0x80, 0xf0, 0x80, 0x80]);
}

#[test]
fn init_memory_holds_font_then_zeros() {
    let memory = Chip8::init_memory();
    assert_eq!(&memory[..80], &FONT[..]);
    assert!(memory[80..].iter().all(|b| *b == 0));
}

#[test]
fn load_digits_keeps_the_rest() {
    let mut memory = [0xAAu8; 4096];
    Chip8::load_digits(&mut memory);
    assert_eq!(&memory[..80], &FONT[..]);
    assert!(memory[80..].iter().all(|b| *b == 0xAA));
}

#[test]
fn load_copies_program_to_0x200() {
    let chip = Chip8::load(vec![0x12, 0x34, 0x56]).unwrap();
    assert_eq!(&chip.memory[0x200..0x203], &[0x12, 0x34, 0x56]);
    assert_eq!(chip.memory[0x203], 0);
    assert_eq!(chip.memory[0x1ff], 0);
    assert_eq!(&chip.memory[..80], &FONT[..]);
    assert_eq!(chip.pc, 0x200);
}

#[test]
fn load_accepts_a_program_that_fills_memory() {
    let chip = Chip8::load(vec![7u8; 4096 - 0x200]).unwrap();
    assert_eq!(chip.memory[0x200], 7);
    assert_eq!(chip.memory[4095], 7);
    assert_eq!(chip.memory[0x1ff], 0);
}

#[test]
fn load_refuses_a_program_that_is_too_large() {
    let loaded = Chip8::load(vec![7u8; 4096 - 0x200 + 1]);
    assert_eq!(loaded.err(), Some(Fault::ProgramTooLarge));
}

#[test]
fn load_instructions_refusal_leaves_memory() {
    let mut chip = Chip8::new();
    chip.load_instructions(&[1, 2, 3]).unwrap();
    let image = vec![9u8; 4000];
    assert_eq!(chip.load_instructions(&image), Err(Fault::ProgramTooLarge));
    assert_eq!(&chip.memory[0x200..0x204], &[1, 2, 3, 0]);
}

#[test]
fn load_instructions_of_nothing_changes_nothing() {
    let mut chip = Chip8::new();
    chip.load_instructions(&[]).unwrap();
    assert!(chip.memory[80..].iter().all(|b| *b == 0));
}

#[test]
fn decode_reads_every_family() {
    assert_eq!(decode(0x00E0), Instruction::ClearScreen);
    assert_eq!(decode(0x00EE), Instruction::Return);
    assert_eq!(decode(0x0123), Instruction::System { addr: 0x123 });
    assert_eq!(decode(0x0000), Instruction::System { addr: 0 });
    assert_eq!(decode(0x1ABC), Instruction::Jump { addr: 0xABC });
    assert_eq!(decode(0x2FFF), Instruction::Call { addr: 0xFFF });
    assert_eq!(decode(0x3A12), Instruction::SkipIfEqual { x: 0xA, byte: 0x12 });
    assert_eq!(decode(0x4B34), Instruction::SkipIfNotEqual { x: 0xB, byte: 0x34 });
    assert_eq!(decode(0x5120), Instruction::SkipIfRegistersEqual { x: 1, y: 2 });
    assert_eq!(decode(0x6CFF), Instruction::Load { x: 0xC, byte: 0xFF });
    assert_eq!(decode(0x7D01), Instruction::AddByte { x: 0xD, byte: 1 });
    assert_eq!(decode(0x8120), Instruction::Move { x: 1, y: 2 });
    assert_eq!(decode(0x8121), Instruction::Or { x: 1, y: 2 });
    assert_eq!(decode(0x8122), Instruction::And { x: 1, y: 2 });
    assert_eq!(decode(0x8123), Instruction::Xor { x: 1, y: 2 });
    assert_eq!(decode(0x8124), Instruction::AddRegister { x: 1, y: 2 });
    assert_eq!(decode(0x8125), Instruction::Subtract { x: 1, y: 2 });
    assert_eq!(decode(0x8126), Instruction::ShiftRight { x: 1 });
    assert_eq!(decode(0x8127), Instruction::SubtractFrom { x: 1, y: 2 });
    assert_eq!(decode(0x812E), Instruction::ShiftLeft { x: 1 });
    assert_eq!(decode(0x9EF0), Instruction::SkipIfRegistersDiffer { x: 0xE, y: 0xF });
    assert_eq!(decode(0xA123), Instruction::LoadIndex { addr: 0x123 });
    assert_eq!(decode(0xB123), Instruction::JumpOffset { addr: 0x123 });
    assert_eq!(decode(0xC10F), Instruction::Random { x: 1, byte: 0x0F });
    assert_eq!(decode(0xD125), Instruction::Draw { x: 1, y: 2, rows: 5 });
    assert_eq!(decode(0xE39E), Instruction::SkipIfKey { x: 3 });
    assert_eq!(decode(0xE3A1), Instruction::SkipIfNotKey { x: 3 });
    assert_eq!(decode(0xF407), Instruction::LoadDelay { x: 4 });
    assert_eq!(decode(0xF40A), Instruction::WaitKey { x: 4 });
    assert_eq!(decode(0xF415), Instruction::SetDelay { x: 4 });
    assert_eq!(decode(0xF418), Instruction::SetSound { x: 4 });
    assert_eq!(decode(0xF41E), Instruction::AddIndex { x: 4 });
    assert_eq!(decode(0xF429), Instruction::LoadGlyph { x: 4 });
    assert_eq!(decode(0xF433), Instruction::StoreDecimal { x: 4 });
    assert_eq!(decode(0xF455), Instruction::StoreRegisters { x: 4 });
    assert_eq!(decode(0xF465), Instruction::LoadRegisters { x: 4 });
}

#[test]
fn decode_reads_unknown_low_parts_as_no_operation() {
    assert_eq!(decode(0x8128), Instruction::NoOperation);
    assert_eq!(decode(0x812F), Instruction::NoOperation);
    assert_eq!(decode(0xE300), Instruction::NoOperation);
    assert_eq!(decode(0xE39F), Instruction::NoOperation);
    assert_eq!(decode(0xF400), Instruction::NoOperation);
    assert_eq!(decode(0xF4FF), Instruction::NoOperation);
}

#[test]
fn decode_ignores_the_last_digit_of_register_skips() {
    assert_eq!(decode(0x512F), Instruction::SkipIfRegistersEqual { x: 1, y: 2 });
    assert_eq!(decode(0x9127), Instruction::SkipIfRegistersDiffer { x: 1, y: 2 });
}

#[test]
fn unknown_low_part_only_advances() {
    let mut chip = Chip8::new();
    chip.v[1] = 9;
    for opcode in [0x8128u16, 0xE100, 0xF1FF] {
        let pc = chip.pc;
        run(&mut chip, opcode).unwrap();
        assert_eq!(chip.pc, pc + 2);
        assert_eq!(chip.v[1], 9);
        assert_eq!(chip.v[0xF], 0);
        assert_eq!(chip.index, 0);
    }
}

#[test]
fn load_byte_then_read_gives_the_byte() {
    for x in 0..16u16 {
        for kk in [0u16, 1, 0x7F, 0x80, 0xFF] {
            let mut chip = Chip8::new();
            run(&mut chip, 0x6000 | (x << 8) | kk).unwrap();
            assert_eq!(chip.v[x as usize], kk as u8);
            assert_eq!(chip.pc, 0x202);
        }
    }
}

#[test]
fn add_byte_wraps_and_leaves_the_flag() {
    let mut chip = Chip8::new();
    chip.v[3] = 0xF0;
    chip.v[0xF] = 7;
    run(&mut chip, 0x7320).unwrap();
    assert_eq!(chip.v[3], 0x10);
    assert_eq!(chip.v[0xF], 7);
}

#[test]
fn add_registers_sets_carry() {
    let mut chip = Chip8::new();
    chip.v[1] = 200;
    chip.v[2] = 100;
    run(&mut chip, 0x8124).unwrap();
    assert_eq!(chip.v[1], 44);
    assert_eq!(chip.v[0xF], 1);

    chip.v[1] = 1;
    chip.v[2] = 2;
    run(&mut chip, 0x8124).unwrap();
    assert_eq!(chip.v[1], 3);
    assert_eq!(chip.v[0xF], 0);

    chip.v[1] = 255;
    chip.v[2] = 1;
    run(&mut chip, 0x8124).unwrap();
    assert_eq!(chip.v[1], 0);
    assert_eq!(chip.v[0xF], 1);

    chip.v[1] = 255;
    chip.v[2] = 0;
    run(&mut chip, 0x8124).unwrap();
    assert_eq!(chip.v[1], 255);
    assert_eq!(chip.v[0xF], 0);
}

#[test]
fn add_into_the_flag_register_keeps_the_carry() {
    let mut chip = Chip8::new();
    chip.v[0xF] = 1;
    chip.v[0] = 1;
    run(&mut chip, 0x8F04).unwrap();
    assert_eq!(chip.v[0xF], 0);
}

#[test]
fn subtract_sets_flag_when_no_borrow() {
    let mut chip = Chip8::new();
    chip.v[1] = 5;
    chip.v[2] = 3;
    run(&mut chip, 0x8125).unwrap();
    assert_eq!(chip.v[1], 2);
    assert_eq!(chip.v[0xF], 1);

    chip.v[1] = 3;
    chip.v[2] = 5;
    run(&mut chip, 0x8125).unwrap();
    assert_eq!(chip.v[1], 254);
    assert_eq!(chip.v[0xF], 0);

    chip.v[1] = 9;
    chip.v[2] = 9;
    run(&mut chip, 0x8125).unwrap();
    assert_eq!(chip.v[1], 0);
    assert_eq!(chip.v[0xF], 1);

    chip.v[2] = 7;
    chip.v[4] = 7;
    run(&mut chip, 0x8245).unwrap();
    assert_eq!(chip.v[2], 0);
    assert_eq!(chip.v[0xF], 1);
}

#[test]
fn subtract_from_sets_flag_when_greater() {
    let mut chip = Chip8::new();
    chip.v[1] = 3;
    chip.v[2] = 5;
    run(&mut chip, 0x8127).unwrap();
    assert_eq!(chip.v[1], 2);
    assert_eq!(chip.v[0xF], 1);

    chip.v[1] = 5;
    chip.v[2] = 3;
    run(&mut chip, 0x8127).unwrap();
    assert_eq!(chip.v[1], 254);
    assert_eq!(chip.v[0xF], 0);

    chip.v[1] = 9;
    chip.v[2] = 9;
    run(&mut chip, 0x8127).unwrap();
    assert_eq!(chip.v[1], 0);
    assert_eq!(chip.v[0xF], 0);
}

#[test]
fn shift_right_is_by_one_bit() {
    let mut chip = Chip8::new();
    chip.v[1] = 0b1000_0101;
    run(&mut chip, 0x8126).unwrap();
    assert_eq!(chip.v[1], 0b0100_0010);
    assert_eq!(chip.v[0xF], 1);

    chip.v[1] = 0b0000_0100;
    run(&mut chip, 0x8126).unwrap();
    assert_eq!(chip.v[1], 0b0000_0010);
    assert_eq!(chip.v[0xF], 0);
}

#[test]
fn shift_left_reports_the_high_bit() {
    let mut chip = Chip8::new();
    chip.v[1] = 0b1000_0101;
    run(&mut chip, 0x812E).unwrap();
    assert_eq!(chip.v[1], 0b0000_1010);
    assert_eq!(chip.v[0xF], 1);

    chip.v[1] = 0b0000_1000;
    run(&mut chip, 0x812E).unwrap();
    assert_eq!(chip.v[1], 0b0001_0000);
    assert_eq!(chip.v[0xF], 0);
}

#[test]
fn shifts_ignore_register_y() {
    let mut chip = Chip8::new();
    chip.v[1] = 4;
    chip.v[2] = 0xFF;
    run(&mut chip, 0x8126).unwrap();
    assert_eq!(chip.v[1], 2);
    assert_eq!(chip.v[2], 0xFF);
    run(&mut chip, 0x812E).unwrap();
    assert_eq!(chip.v[1], 4);
    assert_eq!(chip.v[2], 0xFF);
}

#[test]
fn index_and_offset_jump() {
    let mut chip = Chip8::new();
    run(&mut chip, 0xA123).unwrap();
    assert_eq!(chip.index, 0x123);
    assert_eq!(chip.pc, 0x202);

    chip.v[0] = 0x10;
    run(&mut chip, 0xB300).unwrap();
    assert_eq!(chip.pc, 0x310);
}

#[test]
fn add_index_adds_the_register() {
    let mut chip = Chip8::new();
    chip.index = 0x100;
    chip.v[5] = 0xFF;
    run(&mut chip, 0xF51E).unwrap();
    assert_eq!(chip.index, 0x1FF);
}

#[test]
fn add_index_faults_past_sixteen_bits() {
    let mut chip = Chip8::new();
    chip.index = 0xFFFF;
    chip.v[5] = 1;
    assert_eq!(run(&mut chip, 0xF51E), Err(Fault::AddressOutOfRange));
    assert_eq!(chip.index, 0xFFFF);
    assert_eq!(chip.pc, 0x200);

    chip.v[5] = 0;
    run(&mut chip, 0xF51E).unwrap();
    assert_eq!(chip.index, 0xFFFF);
}

#[test]
fn load_glyph_points_at_five_times_the_digit() {
    let mut chip = Chip8::new();
    chip.v[2] = 0xA;
    run(&mut chip, 0xF229).unwrap();
    assert_eq!(chip.index, 50);
    assert_eq!(&chip.memory[50..55], &[0xf0, 0x90, 0xf0, 0x90, 0x90]);
}

#[test]
fn decimal_digits_are_stored_at_index() {
    let mut chip = Chip8::new();
    chip.v[4] = 205;
    chip.index = 0x300;
    run(&mut chip, 0xF433).unwrap();
    assert_eq!(&chip.memory[0x300..0x303], &[2, 0, 5]);
    assert_eq!(chip.memory[0x2FF], 0);
    assert_eq!(chip.memory[0x303], 0);
    assert_eq!(chip.index, 0x300);

    chip.v[4] = 7;
    run(&mut chip, 0xF433).unwrap();
    assert_eq!(&chip.memory[0x300..0x303], &[0, 0, 7]);

    chip.v[4] = 255;
    chip.index = 4093;
    run(&mut chip, 0xF433).unwrap();
    assert_eq!(&chip.memory[4093..4096], &[2, 5, 5]);
}

#[test]
fn decimal_digits_fault_past_memory() {
    let mut chip = Chip8::new();
    chip.v[4] = 205;
    chip.index = 4094;
    assert_eq!(run(&mut chip, 0xF433), Err(Fault::AddressOutOfRange));
    assert_eq!(chip.memory[4094], 0);
    assert_eq!(chip.memory[4095], 0);
    assert_eq!(chip.pc, 0x200);
}

#[test]
fn registers_are_stored_and_loaded() {
    let mut chip = Chip8::new();
    for r in 0..16 {
        chip.v[r] = 0x10 + r as u8;
    }
    chip.index = 0x400;
    run(&mut chip, 0xF355).unwrap();
    assert_eq!(&chip.memory[0x400..0x404], &[0x10, 0x11, 0x12, 0x13]);
    assert_eq!(chip.memory[0x404], 0);
    assert_eq!(chip.index, 0x400);

    chip.v = [0; 16];
    chip.v[4] = 0x77;
    run(&mut chip, 0xF365).unwrap();
    assert_eq!(&chip.v[0..4], &[0x10, 0x11, 0x12, 0x13]);
    assert_eq!(chip.v[4], 0x77);

    chip.index = 4095;
    chip.v[0] = 0x99;
    run(&mut chip, 0xF055).unwrap();
    assert_eq!(chip.memory[4095], 0x99);
    chip.v[0] = 0;
    run(&mut chip, 0xF065).unwrap();
    assert_eq!(chip.v[0], 0x99);
}

#[test]
fn register_transfers_fault_past_memory() {
    let mut chip = Chip8::new();
    chip.index = 4095;
    chip.v[0] = 1;
    chip.v[1] = 2;
    assert_eq!(run(&mut chip, 0xF155), Err(Fault::AddressOutOfRange));
    assert_eq!(chip.memory[4095], 0);
    assert_eq!(run(&mut chip, 0xF165), Err(Fault::AddressOutOfRange));
    assert_eq!(&chip.v[0..2], &[1, 2]);
    assert_eq!(chip.pc, 0x200);
}

#[test]
fn clear_screen_blanks_every_pixel() {
    let mut chip = Chip8::new();
    chip.gfx = [true; 2048];
    run(&mut chip, 0x00E0).unwrap();
    assert!(chip.gfx.iter().all(|p| !*p));
    assert_eq!(chip.pc, 0x202);
}

#[test]
fn glyph_zero_drawn_on_blank_screen() {
    let mut chip = Chip8::new();
    chip.index = 0;
    run(&mut chip, 0xD015).unwrap();
    let rows: [u8; 5] = [0xf0, 0x90, 0x90, 0x90, 0xf0];
    for y in 0..32 {
        for x in 0..64 {
            let expected = y < 5 && x < 8 && rows[y] & (0x80 >> x) != 0;
            assert_eq!(chip.gfx[y * 64 + x], expected);
        }
    }
    assert_eq!(chip.v[0xF], 0);
    assert_eq!(chip.pc, 0x202);
}

#[test]
fn drawing_twice_restores_the_screen() {
    let mut chip = Chip8::new();
    chip.gfx[3 * 64 + 10] = true;
    chip.gfx[100] = true;
    let before = chip.gfx;
    chip.index = 10;
    chip.v[1] = 8;
    chip.v[2] = 2;
    run(&mut chip, 0xD125).unwrap();
    assert!(chip.gfx != before);
    run(&mut chip, 0xD125).unwrap();
    assert!(chip.gfx == before);
    assert_eq!(chip.v[0xF], 1);
}

#[test]
fn draw_reports_collision_only_for_pixels_turned_off() {
    let mut chip = Chip8::new();
    // a lit pixel under a clear sprite bit is no collision
    chip.memory[0x300] = 0b1000_0000;
    chip.index = 0x300;
    chip.gfx[1] = true;
    run(&mut chip, 0xD011).unwrap();
    assert_eq!(lit(&chip), vec![(0, 0), (1, 0)]);
    assert_eq!(chip.v[0xF], 0);
    // a lit pixel under a set sprite bit is one
    run(&mut chip, 0xD011).unwrap();
    assert_eq!(lit(&chip), vec![(1, 0)]);
    assert_eq!(chip.v[0xF], 1);
    // and the flag is cleared by a draw that turns nothing off
    run(&mut chip, 0xD011).unwrap();
    assert_eq!(chip.v[0xF], 0);
}

#[test]
fn draw_wraps_at_the_edges() {
    let mut chip = Chip8::new();
    chip.memory[0x300] = 0b1100_0011;
    chip.memory[0x301] = 0b1000_0000;
    chip.index = 0x300;
    chip.v[0] = 60;
    chip.v[1] = 31;
    run(&mut chip, 0xD012).unwrap();
    assert_eq!(lit(&chip), vec![(60, 0), (2, 31), (3, 31), (60, 31), (61, 31)]);
}

#[test]
fn draw_takes_coordinates_modulo_the_screen() {
    let mut chip = Chip8::new();
    chip.memory[0x300] = 0b1000_0000;
    chip.index = 0x300;
    chip.v[0] = 64 + 5;
    chip.v[1] = 32 * 3 + 7;
    run(&mut chip, 0xD011).unwrap();
    assert_eq!(lit(&chip), vec![(5, 7)]);
}

#[test]
fn draw_of_no_rows_draws_nothing() {
    let mut chip = Chip8::new();
    chip.v[0xF] = 1;
    run(&mut chip, 0xD010).unwrap();
    assert!(lit(&chip).is_empty());
    assert_eq!(chip.v[0xF], 0);
}

#[test]
fn draw_faults_when_the_sprite_runs_past_memory() {
    let mut chip = Chip8::new();
    chip.index = 4094;
    assert_eq!(run(&mut chip, 0xD013), Err(Fault::AddressOutOfRange));
    assert!(lit(&chip).is_empty());
    assert_eq!(chip.pc, 0x200);
    run(&mut chip, 0xD012).unwrap();
}

#[test]
fn call_then_return_comes_back() {
    // 0x200: call 0x300; 0x300: return
    let mut program = vec![0u8; 0x102];
    program[0] = 0x23;
    program[1] = 0x00;
    program[0x100] = 0x00;
    program[0x101] = 0xEE;
    let mut chip = Chip8::load(program).unwrap();
    chip.cycle().unwrap();
    assert_eq!(chip.pc, 0x300);
    assert_eq!(chip.stack.depth(), 1);
    assert_eq!(chip.stack.top(), Some(0x202));
    chip.cycle().unwrap();
    assert_eq!(chip.pc, 0x202);
    assert_eq!(chip.stack.depth(), 0);
}

#[test]
fn seventeenth_call_overflows() {
    let mut chip = Chip8::new();
    for depth in 0..16 {
        run(&mut chip, 0x2300).unwrap();
        assert_eq!(chip.stack.depth(), depth + 1);
    }
    chip.pc = 0x400;
    assert_eq!(run(&mut chip, 0x2300), Err(Fault::StackOverflow));
    assert_eq!(chip.stack.depth(), 16);
    assert_eq!(chip.pc, 0x400);
}

#[test]
fn return_on_empty_stack_underflows() {
    let mut chip = Chip8::new();
    assert_eq!(run(&mut chip, 0x00EE), Err(Fault::StackUnderflow));
    assert_eq!(chip.pc, 0x200);
    assert_eq!(chip.stack.depth(), 0);
}

#[test]
fn cycle_fetches_big_endian_and_advances() {
    let mut chip = Chip8::load(vec![0x61, 0x2A, 0x71, 0x01]).unwrap();
    chip.cycle().unwrap();
    assert_eq!(chip.opcode, 0x612A);
    assert_eq!(chip.v[1], 0x2A);
    assert_eq!(chip.pc, 0x202);
    chip.cycle().unwrap();
    assert_eq!(chip.opcode, 0x7101);
    assert_eq!(chip.v[1], 0x2B);
    assert_eq!(chip.pc, 0x204);
}

#[test]
fn cycle_faults_when_the_counter_leaves_memory() {
    let mut chip = Chip8::new();
    chip.pc = 4095;
    chip.opcode = 0x1234;
    assert_eq!(chip.cycle(), Err(Fault::AddressOutOfRange));
    assert_eq!(chip.pc, 4095);
    assert_eq!(chip.opcode, 0x1234);

    chip.pc = 4094;
    chip.memory[4094] = 0x60;
    chip.memory[4095] = 0x05;
    chip.cycle().unwrap();
    assert_eq!(chip.v[0], 5);
    assert_eq!(chip.pc, 4096);
    assert_eq!(chip.cycle(), Err(Fault::AddressOutOfRange));
}

#[test]
fn cycle_fault_restores_the_opcode() {
    let mut chip = Chip8::load(vec![0x00, 0xEE]).unwrap();
    chip.opcode = 0x1234;
    assert_eq!(chip.cycle(), Err(Fault::StackUnderflow));
    assert_eq!(chip.opcode, 0x1234);
    assert_eq!(chip.pc, 0x200);
}

#[test]
fn process_opcode_faults_when_the_counter_leaves_memory() {
    let mut chip = Chip8::new();
    chip.pc = 0xFFFF;
    assert_eq!(run(&mut chip, 0x6105), Err(Fault::AddressOutOfRange));
    assert_eq!(chip.v[1], 0);
    assert_eq!(chip.pc, 0xFFFF);
}

#[test]
fn key_skips_follow_the_latch() {
    let mut chip = Chip8::new();
    chip.v[1] = 0xA;
    run(&mut chip, 0xE19E).unwrap();
    assert_eq!(chip.pc, 0x202);
    run(&mut chip, 0xE1A1).unwrap();
    assert_eq!(chip.pc, 0x206);

    chip.keyboard[0xA] = true;
    run(&mut chip, 0xE19E).unwrap();
    assert_eq!(chip.pc, 0x20A);
    run(&mut chip, 0xE1A1).unwrap();
    assert_eq!(chip.pc, 0x20C);
}

#[test]
fn key_skips_read_register_x() {
    // the key is the one named by V[x], x being the second digit
    let mut chip = Chip8::new();
    chip.v[0xE] = 3;
    chip.v[1] = 5;
    chip.keyboard[5] = true;
    run(&mut chip, 0xE19E).unwrap();
    assert_eq!(chip.pc, 0x204);
}

#[test]
fn key_above_fifteen_faults() {
    let mut chip = Chip8::new();
    chip.v[1] = 16;
    assert_eq!(run(&mut chip, 0xE19E), Err(Fault::KeyOutOfRange));
    assert_eq!(run(&mut chip, 0xE1A1), Err(Fault::KeyOutOfRange));
    assert_eq!(chip.pc, 0x200);
}

#[test]
fn wait_key_holds_until_a_key_is_down() {
    let mut chip = Chip8::load(vec![0xF3, 0x0A]).unwrap();
    chip.v[3] = 0x55;
    for _ in 0..3 {
        chip.cycle().unwrap();
        assert_eq!(chip.pc, 0x200);
        assert_eq!(chip.v[3], 0x55);
    }
    chip.keyboard[9] = true;
    chip.keyboard[4] = true;
    chip.cycle().unwrap();
    assert_eq!(chip.pc, 0x202);
    assert_eq!(chip.v[3], 4);
}

#[test]
fn first_key_down_is_the_lowest() {
    let mut keys = [false; 16];
    assert_eq!(first_key_down(&keys), None);
    keys[15] = true;
    assert_eq!(first_key_down(&keys), Some(15));
    keys[0] = true;
    assert_eq!(first_key_down(&keys), Some(0));
}

#[test]
fn random_is_masked() {
    let mut chip = Chip8::new();
    let mut seen = [false; 256];
    for _ in 0..400 {
        chip.pc = 0x200;
        chip.v[1] = 0xFF;
        run(&mut chip, 0xC10F).unwrap();
        assert!(chip.v[1] < 16);
        chip.v[2] = 0xFF;
        run(&mut chip, 0xC200).unwrap();
        assert_eq!(chip.v[2], 0);
        run(&mut chip, 0xC3FF).unwrap();
        seen[chip.v[3] as usize] = true;
    }
    assert!(seen.iter().filter(|s| **s).count() > 16);
}

#[test]
fn execute_uses_the_host_byte_for_random_and_delay() {
    let mut chip = Chip8::new();
    chip.opcode = 0xC13C;
    chip.execute(0xF5).unwrap();
    assert_eq!(chip.v[1], 0x34);

    chip.opcode = 0xF207;
    chip.execute(0x2A).unwrap();
    assert_eq!(chip.v[2], 0x2A);

    chip.opcode = 0x6377;
    chip.execute(0xFF).unwrap();
    assert_eq!(chip.v[3], 0x77);
    assert_eq!(chip.pc, 0x206);
}

#[test]
fn glyph_sheet_is_drawn() {
    let mut chip = Chip8::new();
    chip.test_drawing().unwrap();
    let mut expected = [false; 2048];
    for digit in 0..16usize {
        let left = 3 + 16 * (digit % 4);
        let top = 3 + 6 * (digit / 4);
        for row in 0..5 {
            for col in 0..8 {
                if FONT[digit * 5 + row] & (0x80 >> col) != 0 {
                    expected[(top + row) * 64 + left + col] = true;
                }
            }
        }
    }
    assert!(chip.gfx == expected);
    assert_eq!(chip.v[0xF], 0);
    assert_eq!(chip.pc, 0x200 + 64);
    assert_eq!(chip.index, 75);
}

#[test]
fn glyph_sheet_needs_room_for_its_instructions() {
    let mut chip = Chip8::new();
    chip.pc = 4032;
    chip.test_drawing().unwrap();
    assert_eq!(chip.pc, 4096);

    let mut chip = Chip8::new();
    chip.pc = 4034;
    assert_eq!(chip.test_drawing(), Err(Fault::AddressOutOfRange));
}
