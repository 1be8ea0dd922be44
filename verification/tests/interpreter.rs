use chipo::error::Chip8Error;
use chipo::font::{FONTSET, SUPER_FONTSET};
use chipo::Chip8;

fn machine_with(rom: &[u8]) -> Chip8 {
    let mut chip8 = Chip8::new();
    assert_eq!(chip8.load_rom(rom, true), Ok(()));
    chip8
}

fn clipping_machine_with(rom: &[u8]) -> Chip8 {
    let mut chip8 = Chip8::new();
    assert_eq!(chip8.load_rom(rom, false), Ok(()));
    chip8
}

fn run(chip8: &mut Chip8, cycles: usize) {
    for _ in 0..cycles {
        assert_eq!(chip8.execute_cycle(), Ok(()));
    }
}

/// Runs the whole of `rom`, one instruction per two bytes, and gives the
/// machine back.
fn after(rom: &[u8]) -> Chip8 {
    let mut chip8 = machine_with(rom);
    run(&mut chip8, rom.len() / 2);
    chip8
}

fn pixel(chip8: &Chip8, row: usize, col: usize) -> bool {
    let place = row * chip8.screen_width() + col;
    chip8.screen()[place / 8] & (1 << (place % 8)) != 0
}

fn lit_pixels(chip8: &Chip8) -> Vec<(usize, usize)> {
    let mut lit = Vec::new();
    for row in 0..chip8.screen_height() {
        for col in 0..chip8.screen_width() {
            if pixel(chip8, row, col) {
                lit.push((row, col));
            }
        }
    }
    lit
}

#[test]
fn new_machine_is_blank_and_running() {
    let chip8 = Chip8::new();
    assert_eq!(chip8.program_counter(), 0);
    assert_eq!(chip8.index(), 0);
    assert!(chip8.registers().iter().all(|value| *value == 0));
    assert!(chip8.memory().iter().all(|byte| *byte == 0));
    assert_eq!(chip8.memory().len(), 4096);
    assert_eq!(chip8.registers().len(), 16);
    assert!(chip8.is_running());
    assert!(!chip8.should_draw());
    assert!(!chip8.should_beep());
    assert_eq!(chip8.screen_width(), 64);
    assert_eq!(chip8.screen_height(), 32);
    assert!(chip8.screen().iter().all(|byte| *byte == 0));
}

#[test]
fn default_machine_is_a_new_machine() {
    let chip8 = Chip8::default();
    assert_eq!(chip8.program_counter(), 0);
    assert!(chip8.is_running());
    assert!(chip8.memory().iter().all(|byte| *byte == 0));
}

#[test]
fn load_puts_the_rom_at_0x200_above_the_fonts() {
    let rom: Vec<u8> = (0..300).map(|place| (place * 7 + 1) as u8).collect();
    let chip8 = machine_with(&rom);
    let memory = chip8.memory();
    assert_eq!(memory[0x200..0x200 + rom.len()], rom[..]);
    assert_eq!(memory[..80], FONTSET[..]);
    assert_eq!(memory[80..240], SUPER_FONTSET[..]);
    assert!(memory[240..0x200].iter().all(|byte| *byte == 0));
    assert!(memory[0x200 + rom.len()..].iter().all(|byte| *byte == 0));
    assert_eq!(chip8.program_counter(), 0x200);
    assert!(chip8.should_draw());
    assert!(!chip8.should_beep());
}

#[test]
fn load_resets_what_an_earlier_program_left() {
    let mut chip8 = after(&[0x6A, 0x33, 0xA1, 0x23, 0xFA, 0x15, 0xFA, 0x18, 0x00, 0xFF, 0xD0, 0x01, 0x22, 0x0E, 0x00, 0xFD]);
    chip8.press_key(4);
    assert!(!chip8.is_running());
    assert_eq!(chip8.load_rom(&[0x12, 0x00], false), Ok(()));
    assert!(chip8.is_running());
    assert_eq!(chip8.program_counter(), 0x200);
    assert_eq!(chip8.index(), 0);
    assert_eq!(chip8.delay_timer(), 0);
    assert_eq!(chip8.sound_timer(), 0);
    assert!(chip8.registers().iter().all(|value| *value == 0));
    assert_eq!(chip8.screen_width(), 64);
    assert!(chip8.screen().iter().all(|byte| *byte == 0));
    assert_eq!(chip8.memory()[0x202], 0);
    // The key is released and the stack is empty again.
    assert_eq!(chip8.load_rom(&[0xE0, 0xA1, 0x00, 0x00, 0x00, 0xEE], false), Ok(()));
    run(&mut chip8, 1);
    assert_eq!(chip8.program_counter(), 0x204);
    assert_eq!(chip8.execute_cycle(), Err(Chip8Error::StackUnderflow));
}

#[test]
fn load_blanks_the_whole_display_buffer() {
    // Fill the super picture, switch to the standard one and load again.
    let mut rom = vec![0x00, 0xFF, 0xA2, 0x20];
    for row in 0..4u8 {
        rom.extend_from_slice(&[0x61, row * 16, 0xD0, 0x10]);
    }
    rom.extend_from_slice(&[0x00, 0xFE]);
    rom.resize(0x20, 0);
    rom.extend_from_slice(&[0xFF; 32]);
    let mut chip8 = machine_with(&rom);
    run(&mut chip8, 11);
    assert_eq!(chip8.screen_width(), 64);
    assert_eq!(chip8.load_rom(&[0x00, 0xFF], true), Ok(()));
    run(&mut chip8, 1);
    assert_eq!(chip8.screen().len(), 1024);
    assert!(chip8.screen().iter().all(|byte| *byte == 0));
}

#[test]
fn the_largest_rom_that_fits_is_loaded() {
    let rom = vec![0xAB; 4096 - 0x200];
    let chip8 = machine_with(&rom);
    assert_eq!(chip8.memory()[0x200], 0xAB);
    assert_eq!(chip8.memory()[4095], 0xAB);
}

#[test]
fn an_oversize_rom_is_refused_and_nothing_changes() {
    let mut chip8 = after(&[0x61, 0x44, 0xA3, 0x45]);
    let rom = vec![0xAB; 4096 - 0x200 + 1];
    assert_eq!(chip8.load_rom(&rom, true), Err(Chip8Error::OversizeRom));
    assert_eq!(chip8.registers()[1], 0x44);
    assert_eq!(chip8.index(), 0x345);
    assert_eq!(chip8.program_counter(), 0x204);
    assert_eq!(chip8.memory()[0x200], 0x61);
    assert_eq!(chip8.memory()[0x204], 0);
}

#[test]
fn clear_blanks_every_pixel_and_asks_for_a_redraw() {
    // Light a glyph first, then clear.
    let mut chip8 = machine_with(&[0xA0, 0x00, 0xD0, 0x05, 0x60, 0x00, 0x00, 0xE0]);
    run(&mut chip8, 2);
    assert!(chip8.screen().iter().any(|byte| *byte != 0));
    run(&mut chip8, 1);
    assert!(!chip8.should_draw());
    run(&mut chip8, 1);
    assert!(chip8.screen().iter().all(|byte| *byte == 0));
    assert_eq!(chip8.screen().len(), 64 * 32 / 8);
    assert!(chip8.should_draw());
}

#[test]
fn glyph_address_is_five_times_the_digit() {
    let chip8 = after(&[0xA0, 0x00, 0x60, 0x05, 0xF0, 0x29]);
    assert_eq!(chip8.registers()[0], 5);
    assert_eq!(chip8.index(), 25);
    let chip8 = after(&[0x6C, 0x0F, 0xFC, 0x29]);
    assert_eq!(chip8.index(), 75);
    assert_eq!(chip8.memory()[75..80], FONTSET[75..80]);
}

#[test]
fn glyph_is_chosen_by_the_low_nibble() {
    let chip8 = after(&[0x6C, 0xA7, 0xFC, 0x29]);
    assert_eq!(chip8.index(), 35);
    let chip8 = after(&[0x6C, 0xF0, 0xFC, 0x30]);
    assert_eq!(chip8.index(), 80);
    let chip8 = after(&[0x6C, 0x1F, 0xFC, 0x30]);
    assert_eq!(chip8.index(), 230);
}

#[test]
fn super_glyph_address_is_ten_times_the_digit_past_the_standard_font() {
    let chip8 = after(&[0x63, 0x00, 0xF3, 0x30]);
    assert_eq!(chip8.index(), 80);
    let chip8 = after(&[0x63, 0x07, 0xF3, 0x30]);
    assert_eq!(chip8.index(), 150);
    assert_eq!(chip8.memory()[150..160], SUPER_FONTSET[70..80]);
}

#[test]
fn skip_on_equal_advances_by_four() {
    let mut chip8 = machine_with(&[0x60, 0x12, 0x30, 0x12]);
    run(&mut chip8, 1);
    let before = chip8.program_counter();
    run(&mut chip8, 1);
    assert_eq!(chip8.program_counter(), before + 4);
}

#[test]
fn skip_on_equal_advances_by_two_when_different() {
    let chip8 = after(&[0x60, 0x13, 0x30, 0x12]);
    assert_eq!(chip8.program_counter(), 0x204);
}

#[test]
fn skip_on_different_byte() {
    assert_eq!(after(&[0x60, 0x13, 0x40, 0x12]).program_counter(), 0x206);
    assert_eq!(after(&[0x60, 0x12, 0x40, 0x12]).program_counter(), 0x204);
}

#[test]
fn skip_on_equal_and_on_different_registers() {
    assert_eq!(after(&[0x61, 0x07, 0x62, 0x07, 0x51, 0x20]).program_counter(), 0x208);
    assert_eq!(after(&[0x61, 0x07, 0x62, 0x08, 0x51, 0x20]).program_counter(), 0x206);
    assert_eq!(after(&[0x61, 0x07, 0x62, 0x08, 0x91, 0x20]).program_counter(), 0x208);
    assert_eq!(after(&[0x61, 0x07, 0x62, 0x07, 0x91, 0x20]).program_counter(), 0x206);
}

#[test]
fn sound_timer_beeps_once_when_it_reaches_zero() {
    let mut chip8 = after(&[0x60, 0x01, 0xF0, 0x18]);
    assert_eq!(chip8.sound_timer(), 1);
    assert!(!chip8.should_beep());
    chip8.decrement_timers();
    assert_eq!(chip8.sound_timer(), 0);
    assert!(chip8.should_beep());
    chip8.decrement_timers();
    assert_eq!(chip8.sound_timer(), 0);
    assert!(!chip8.should_beep());
}

#[test]
fn sound_timer_does_not_beep_before_it_reaches_zero() {
    let mut chip8 = after(&[0x60, 0x03, 0xF0, 0x18]);
    chip8.decrement_timers();
    assert_eq!(chip8.sound_timer(), 2);
    assert!(!chip8.should_beep());
    chip8.decrement_timers();
    assert_eq!(chip8.sound_timer(), 1);
    assert!(!chip8.should_beep());
    chip8.decrement_timers();
    assert_eq!(chip8.sound_timer(), 0);
    assert!(chip8.should_beep());
}

#[test]
fn a_cycle_leaves_the_beep_and_the_timers_alone() {
    let mut chip8 = machine_with(&[0x60, 0x01, 0xF0, 0x18, 0x61, 0x05, 0xF1, 0x15, 0x62, 0x00, 0x62, 0x01]);
    run(&mut chip8, 4);
    chip8.decrement_timers();
    assert!(chip8.should_beep());
    assert_eq!(chip8.delay_timer(), 4);
    run(&mut chip8, 2);
    assert!(chip8.should_beep());
    assert_eq!(chip8.delay_timer(), 4);
    assert_eq!(chip8.sound_timer(), 0);
}

#[test]
fn delay_timer_counts_down_to_zero_and_stays() {
    let mut chip8 = after(&[0x65, 0x02, 0xF5, 0x15, 0xF6, 0x07]);
    assert_eq!(chip8.delay_timer(), 2);
    assert_eq!(chip8.registers()[6], 2);
    chip8.decrement_timers();
    assert_eq!(chip8.delay_timer(), 1);
    chip8.decrement_timers();
    assert_eq!(chip8.delay_timer(), 0);
    chip8.decrement_timers();
    assert_eq!(chip8.delay_timer(), 0);
    assert!(!chip8.should_beep());
}

#[test]
fn unknown_word_is_reported_with_its_address() {
    let mut chip8 = machine_with(&[0x60, 0x01, 0x00, 0x00]);
    run(&mut chip8, 1);
    assert_eq!(
        chip8.execute_cycle(),
        Err(Chip8Error::InvalidOpcode { opcode: 0x0000, pc: 0x202 })
    );
    assert_eq!(chip8.program_counter(), 0x202);
    assert_eq!(
        chip8.execute_cycle(),
        Err(Chip8Error::InvalidOpcode { opcode: 0x0000, pc: 0x202 })
    );
}

#[test]
fn words_outside_the_table_are_invalid() {
    for word in [0x0123u16, 0x00E1, 0x00FA, 0x5121, 0x8128, 0x812F, 0x9121, 0xE19F, 0xE1A2, 0xF1FF, 0xF108, 0xF875, 0xFF85] {
        let mut chip8 = machine_with(&[(word >> 8) as u8, word as u8]);
        assert_eq!(
            chip8.execute_cycle(),
            Err(Chip8Error::InvalidOpcode { opcode: word, pc: 0x200 })
        );
    }
}

#[test]
fn an_error_leaves_the_machine_as_it_was() {
    let mut chip8 = machine_with(&[0x6B, 0x21, 0xA0, 0x09, 0xD0, 0x05, 0xFF, 0xFF]);
    run(&mut chip8, 3);
    let registers = chip8.registers().to_vec();
    let memory = chip8.memory().to_vec();
    let screen = chip8.screen().to_vec();
    assert!(chip8.should_draw());
    assert!(chip8.execute_cycle().is_err());
    assert_eq!(chip8.registers(), &registers[..]);
    assert_eq!(chip8.memory(), &memory[..]);
    assert_eq!(chip8.screen(), &screen[..]);
    assert_eq!(chip8.program_counter(), 0x206);
    assert_eq!(chip8.index(), 9);
    assert!(chip8.should_draw());
    assert!(chip8.is_running());
}

#[test]
fn jump_goes_to_the_address() {
    let chip8 = after(&[0x1A, 0xBC]);
    assert_eq!(chip8.program_counter(), 0xABC);
}

#[test]
fn jump_with_offset_adds_the_first_register() {
    let chip8 = after(&[0x60, 0xFF, 0xBF, 0xFF]);
    assert_eq!(chip8.program_counter(), 0xFFF + 0xFF);
}

#[test]
fn call_and_return_come_back_behind_the_call() {
    // 0x200: call 0x206; 0x202: V1 = 1; 0x206: V2 = 2; 0x208: return.
    let mut chip8 = machine_with(&[0x22, 0x06, 0x61, 0x01, 0x00, 0x00, 0x62, 0x02, 0x00, 0xEE]);
    run(&mut chip8, 1);
    assert_eq!(chip8.program_counter(), 0x206);
    run(&mut chip8, 2);
    assert_eq!(chip8.program_counter(), 0x202);
    run(&mut chip8, 1);
    assert_eq!(chip8.registers()[1], 1);
    assert_eq!(chip8.registers()[2], 2);
}

#[test]
fn the_seventeenth_nested_call_overflows_the_stack() {
    // The program calls itself for ever.
    let mut chip8 = machine_with(&[0x22, 0x00]);
    run(&mut chip8, 16);
    assert_eq!(chip8.execute_cycle(), Err(Chip8Error::StackOverflow));
    assert_eq!(chip8.program_counter(), 0x200);
    assert_eq!(chip8.execute_cycle(), Err(Chip8Error::StackOverflow));
}

#[test]
fn nested_calls_return_in_order() {
    // 0x200: call 0x210. 0x210: call 0x220, then return. 0x220: return.
    let mut rom = vec![0u8; 0x22];
    rom[0x00] = 0x22;
    rom[0x01] = 0x10;
    rom[0x10] = 0x22;
    rom[0x11] = 0x20;
    rom[0x12] = 0x00;
    rom[0x13] = 0xEE;
    rom[0x20] = 0x00;
    rom[0x21] = 0xEE;
    let mut chip8 = machine_with(&rom);
    run(&mut chip8, 1);
    assert_eq!(chip8.program_counter(), 0x210);
    run(&mut chip8, 1);
    assert_eq!(chip8.program_counter(), 0x220);
    run(&mut chip8, 1);
    assert_eq!(chip8.program_counter(), 0x212);
    run(&mut chip8, 1);
    assert_eq!(chip8.program_counter(), 0x202);
}

#[test]
fn sixteen_nested_calls_fit_the_stack() {
    // Sixteen calls, each to the word behind it, then seventeen returns.
    let mut rom = Vec::new();
    for depth in 0..16u16 {
        let target = 0x200 + 2 * (depth + 1);
        rom.push(0x20 | (target >> 8) as u8);
        rom.push(target as u8);
    }
    rom.extend_from_slice(&[0x00, 0xEE]);
    let mut chip8 = machine_with(&rom);
    run(&mut chip8, 16);
    assert_eq!(chip8.program_counter(), 0x220);
    // The latest call was made at 0x21E and comes back to 0x220.
    run(&mut chip8, 1);
    assert_eq!(chip8.program_counter(), 0x220);
    // The one before comes back to 0x21E, which calls 0x220 again.
    run(&mut chip8, 1);
    assert_eq!(chip8.program_counter(), 0x21E);
    run(&mut chip8, 1);
    assert_eq!(chip8.program_counter(), 0x220);
}

#[test]
fn return_without_a_call_underflows_the_stack() {
    let mut chip8 = machine_with(&[0x00, 0xEE]);
    assert_eq!(chip8.execute_cycle(), Err(Chip8Error::StackUnderflow));
    assert_eq!(chip8.program_counter(), 0x200);
}

#[test]
fn fetching_past_the_end_of_memory_is_out_of_bounds() {
    let mut chip8 = machine_with(&[0x1F, 0xFF]);
    run(&mut chip8, 1);
    assert_eq!(chip8.program_counter(), 0xFFF);
    assert_eq!(chip8.execute_cycle(), Err(Chip8Error::OutOfBoundsAccess));
    assert_eq!(chip8.program_counter(), 0xFFF);
}

#[test]
fn the_last_word_of_memory_can_be_fetched() {
    let mut rom = vec![0u8; 4096 - 0x200];
    rom[0] = 0x1F;
    rom[1] = 0xFE;
    rom[0xFFE - 0x200] = 0x61;
    rom[0xFFF - 0x200] = 0x2A;
    let mut chip8 = machine_with(&rom);
    run(&mut chip8, 2);
    assert_eq!(chip8.registers()[1], 0x2A);
    assert_eq!(chip8.program_counter(), 0x1000);
    assert_eq!(chip8.execute_cycle(), Err(Chip8Error::OutOfBoundsAccess));
}

#[test]
fn exit_halts_and_further_cycles_do_nothing() {
    let mut chip8 = machine_with(&[0x00, 0xE0, 0x00, 0xFD, 0x61, 0x01]);
    run(&mut chip8, 2);
    assert!(!chip8.is_running());
    assert_eq!(chip8.program_counter(), 0x204);
    run(&mut chip8, 3);
    assert_eq!(chip8.program_counter(), 0x204);
    assert_eq!(chip8.registers()[1], 0);
    assert!(!chip8.is_running());
}

#[test]
fn load_byte_and_add_byte() {
    let chip8 = after(&[0x63, 0xF0, 0x73, 0x0F]);
    assert_eq!(chip8.registers()[3], 0xFF);
}

#[test]
fn add_byte_wraps_and_leaves_the_flag_alone() {
    let chip8 = after(&[0x6F, 0x07, 0x63, 0xF0, 0x73, 0x20]);
    assert_eq!(chip8.registers()[3], 0x10);
    assert_eq!(chip8.registers()[15], 0x07);
}

#[test]
fn move_or_and_xor() {
    let start = [0x61, 0b1100_1010, 0x62, 0b1010_0110];
    let with = |last: [u8; 2]| {
        let mut rom = start.to_vec();
        rom.extend_from_slice(&last);
        after(&rom).registers()[1]
    };
    assert_eq!(with([0x81, 0x20]), 0b1010_0110);
    assert_eq!(with([0x81, 0x21]), 0b1110_1110);
    assert_eq!(with([0x81, 0x22]), 0b1000_0010);
    assert_eq!(with([0x81, 0x23]), 0b0110_1100);
}

#[test]
fn logic_instructions_leave_the_flag_alone() {
    let chip8 = after(&[0x6F, 0x09, 0x61, 0x0C, 0x62, 0x0A, 0x81, 0x21, 0x81, 0x22, 0x81, 0x23]);
    assert_eq!(chip8.registers()[15], 0x09);
}

#[test]
fn add_sets_the_flag_on_carry() {
    let chip8 = after(&[0x61, 200, 0x62, 100, 0x81, 0x24]);
    assert_eq!(chip8.registers()[1], 44);
    assert_eq!(chip8.registers()[2], 100);
    assert_eq!(chip8.registers()[15], 1);
    let chip8 = after(&[0x61, 255, 0x62, 1, 0x81, 0x24]);
    assert_eq!(chip8.registers()[1], 0);
    assert_eq!(chip8.registers()[15], 1);
}

#[test]
fn add_clears_the_flag_without_carry() {
    let chip8 = after(&[0x6F, 0x01, 0x61, 200, 0x62, 55, 0x81, 0x24]);
    assert_eq!(chip8.registers()[1], 255);
    assert_eq!(chip8.registers()[15], 0);
}

#[test]
fn add_carry_holds_for_every_pair_of_bytes() {
    for a in 0..=255u16 {
        for b in [0u16, 1, 2, 100, 127, 128, 200, 254, 255] {
            let mut chip8 = machine_with(&[0x63, a as u8, 0x64, b as u8, 0x83, 0x44]);
            for _ in 0..3 {
                assert_eq!(chip8.execute_cycle_with(0), Ok(()));
            }
            assert_eq!(chip8.registers()[3] as u16, (a + b) % 256);
            assert_eq!(chip8.registers()[15] == 1, a + b > 255);
            assert!(chip8.registers()[15] <= 1);
        }
    }
}

#[test]
fn sub_sets_the_flag_when_nothing_is_borrowed() {
    let chip8 = after(&[0x61, 10, 0x62, 5, 0x81, 0x25]);
    assert_eq!(chip8.registers()[1], 5);
    assert_eq!(chip8.registers()[15], 1);
    let chip8 = after(&[0x61, 7, 0x62, 7, 0x81, 0x25]);
    assert_eq!(chip8.registers()[1], 0);
    assert_eq!(chip8.registers()[15], 1);
}

#[test]
fn sub_clears_the_flag_on_borrow() {
    let chip8 = after(&[0x6F, 0x01, 0x61, 5, 0x62, 10, 0x81, 0x25]);
    assert_eq!(chip8.registers()[1], 251);
    assert_eq!(chip8.registers()[15], 0);
}

#[test]
fn sub_borrow_holds_for_every_pair_of_bytes() {
    for a in 0..=255i32 {
        for b in [0i32, 1, 2, 100, 127, 128, 200, 254, 255] {
            let mut chip8 = machine_with(&[0x63, a as u8, 0x64, b as u8, 0x83, 0x45]);
            for _ in 0..3 {
                assert_eq!(chip8.execute_cycle_with(0), Ok(()));
            }
            assert_eq!(chip8.registers()[3] as i32, (a - b).rem_euclid(256));
            assert_eq!(chip8.registers()[15] == 1, a >= b);
            assert!(chip8.registers()[15] <= 1);
        }
    }
}

#[test]
fn reverse_sub_takes_the_first_from_the_second() {
    let chip8 = after(&[0x61, 5, 0x62, 10, 0x81, 0x27]);
    assert_eq!(chip8.registers()[1], 5);
    assert_eq!(chip8.registers()[2], 10);
    assert_eq!(chip8.registers()[15], 1);
    let chip8 = after(&[0x61, 10, 0x62, 5, 0x81, 0x27]);
    assert_eq!(chip8.registers()[1], 251);
    assert_eq!(chip8.registers()[15], 0);
    let chip8 = after(&[0x61, 9, 0x62, 9, 0x81, 0x27]);
    assert_eq!(chip8.registers()[1], 0);
    assert_eq!(chip8.registers()[15], 1);
}

#[test]
fn shift_right_moves_the_first_register_and_keeps_its_low_bit() {
    let chip8 = after(&[0x61, 0b0000_0101, 0x62, 0b1111_0000, 0x81, 0x26]);
    assert_eq!(chip8.registers()[1], 0b0000_0010);
    assert_eq!(chip8.registers()[2], 0b1111_0000);
    assert_eq!(chip8.registers()[15], 1);
    let chip8 = after(&[0x6F, 0x01, 0x61, 0b1000_0100, 0x62, 0xFF, 0x81, 0x26]);
    assert_eq!(chip8.registers()[1], 0b0100_0010);
    assert_eq!(chip8.registers()[15], 0);
}

#[test]
fn shift_left_moves_the_first_register_and_keeps_its_high_bit() {
    let chip8 = after(&[0x61, 0b1000_0101, 0x62, 0b0000_1111, 0x81, 0x2E]);
    assert_eq!(chip8.registers()[1], 0b0000_1010);
    assert_eq!(chip8.registers()[2], 0b0000_1111);
    assert_eq!(chip8.registers()[15], 1);
    let chip8 = after(&[0x6F, 0x01, 0x61, 0b0100_0001, 0x62, 0xFF, 0x81, 0x2E]);
    assert_eq!(chip8.registers()[1], 0b1000_0010);
    assert_eq!(chip8.registers()[15], 0);
}

#[test]
fn the_flag_wins_where_the_flag_register_is_the_destination() {
    // VF = 200 + 100: the carry, not the sum, is what stays.
    let chip8 = after(&[0x6F, 200, 0x62, 100, 0x8F, 0x24]);
    assert_eq!(chip8.registers()[15], 1);
    // VF = 5 - 10: the borrow flag stays.
    let chip8 = after(&[0x6F, 5, 0x62, 10, 0x8F, 0x25]);
    assert_eq!(chip8.registers()[15], 0);
    // VF shifted right: the flag is written first and then halved.
    let chip8 = after(&[0x6F, 0xFF, 0x8F, 0x06]);
    assert_eq!(chip8.registers()[15], 0);
    // VF shifted left: the flag is written first and then doubled.
    let chip8 = after(&[0x6F, 0xFF, 0x8F, 0x0E]);
    assert_eq!(chip8.registers()[15], 2);
    let chip8 = after(&[0x6F, 0x7F, 0x8F, 0x0E]);
    assert_eq!(chip8.registers()[15], 0);
}

#[test]
fn load_index_and_add_to_index() {
    let chip8 = after(&[0x6F, 0x07, 0xAF, 0x00, 0x61, 0xFF, 0xF1, 0x1E]);
    assert_eq!(chip8.index(), 0xF00 + 0xFF);
    assert_eq!(chip8.registers()[15], 0x07);
}

#[test]
fn index_that_would_leave_memory_is_out_of_bounds() {
    let mut chip8 = machine_with(&[0xAF, 0x01, 0x61, 0xFF, 0xF1, 0x1E]);
    run(&mut chip8, 2);
    assert_eq!(chip8.execute_cycle(), Err(Chip8Error::OutOfBoundsAccess));
    assert_eq!(chip8.index(), 0xF01);
    assert_eq!(chip8.program_counter(), 0x204);
}

#[test]
fn random_byte_is_masked_with_the_immediate() {
    let mut chip8 = machine_with(&[0xC1, 0x0F, 0xC2, 0xF0, 0xC3, 0x00, 0xC4, 0xFF]);
    assert_eq!(chip8.execute_cycle_with(0xAB), Ok(()));
    assert_eq!(chip8.execute_cycle_with(0xAB), Ok(()));
    assert_eq!(chip8.execute_cycle_with(0xAB), Ok(()));
    assert_eq!(chip8.execute_cycle_with(0xAB), Ok(()));
    assert_eq!(chip8.registers()[1], 0x0B);
    assert_eq!(chip8.registers()[2], 0xA0);
    assert_eq!(chip8.registers()[3], 0x00);
    assert_eq!(chip8.registers()[4], 0xAB);
    assert_eq!(chip8.program_counter(), 0x208);
}

#[test]
fn random_byte_from_the_generator_is_masked_too() {
    for _ in 0..200 {
        let chip8 = after(&[0x61, 0xFF, 0xC1, 0x00, 0xC2, 0x03, 0xC3, 0x80]);
        assert_eq!(chip8.registers()[1], 0);
        assert!(chip8.registers()[2] <= 3);
        assert!(chip8.registers()[3] == 0 || chip8.registers()[3] == 0x80);
    }
}

#[test]
fn the_generator_gives_more_than_one_byte() {
    let mut seen = [false; 256];
    for _ in 0..2000 {
        let chip8 = after(&[0xC1, 0xFF]);
        seen[chip8.registers()[1] as usize] = true;
    }
    assert!(seen.iter().filter(|hit| **hit).count() > 1);
}

#[test]
fn the_given_byte_matters_to_the_random_instruction_only() {
    let rom = [0x61, 0x05, 0x71, 0x01, 0xA1, 0x23, 0xC2, 0xFF];
    let mut one = machine_with(&rom);
    let mut other = machine_with(&rom);
    for _ in 0..3 {
        assert_eq!(one.execute_cycle_with(0x00), Ok(()));
        assert_eq!(other.execute_cycle_with(0xFF), Ok(()));
        assert_eq!(one.registers(), other.registers());
        assert_eq!(one.index(), other.index());
        assert_eq!(one.program_counter(), other.program_counter());
    }
    assert_eq!(one.execute_cycle_with(0x00), Ok(()));
    assert_eq!(other.execute_cycle_with(0xFF), Ok(()));
    assert_eq!(one.registers()[2], 0x00);
    assert_eq!(other.registers()[2], 0xFF);
}

#[test]
fn draw_shows_a_glyph_and_asks_for_a_redraw() {
    // The glyph of 0 is F0 90 90 90 F0.
    let chip8 = after(&[0x61, 0x02, 0x62, 0x01, 0xA0, 0x00, 0xD1, 0x25]);
    assert!(chip8.should_draw());
    assert_eq!(chip8.registers()[15], 0);
    assert_eq!(
        lit_pixels(&chip8),
        vec![
            (1, 2), (1, 3), (1, 4), (1, 5),
            (2, 2), (2, 5),
            (3, 2), (3, 5),
            (4, 2), (4, 5),
            (5, 2), (5, 3), (5, 4), (5, 5)
        ]
    );
}

#[test]
fn draw_twice_restores_the_display_and_sets_the_flag() {
    let mut chip8 = machine_with(&[0xA0, 0x05, 0xD0, 0x05, 0xD0, 0x05, 0x60, 0x00]);
    run(&mut chip8, 2);
    assert_eq!(chip8.registers()[15], 0);
    assert!(!lit_pixels(&chip8).is_empty());
    run(&mut chip8, 1);
    assert_eq!(chip8.registers()[15], 1);
    assert!(chip8.should_draw());
    assert!(lit_pixels(&chip8).is_empty());
    run(&mut chip8, 1);
    assert!(!chip8.should_draw());
}

#[test]
fn draw_takes_its_position_from_the_registers_as_they_were() {
    // The flag register gives the column: it is read before the flag is set.
    let chip8 = after(&[0x6F, 0x08, 0x61, 0x00, 0xA0, 0x00, 0xDF, 0x11]);
    assert_eq!(lit_pixels(&chip8), vec![(0, 8), (0, 9), (0, 10), (0, 11)]);
    assert_eq!(chip8.registers()[15], 0);
}

#[test]
fn draw_wraps_or_clips_as_the_machine_was_loaded() {
    let rom = [0x61, 62, 0x62, 31, 0xA0, 0x00, 0xD1, 0x22];
    let wrapped = after(&rom);
    assert_eq!(
        lit_pixels(&wrapped),
        vec![(0, 1), (0, 62), (31, 0), (31, 1), (31, 62), (31, 63)]
    );
    let mut clipped = clipping_machine_with(&rom);
    run(&mut clipped, 4);
    assert_eq!(lit_pixels(&clipped), vec![(31, 62), (31, 63)]);
}

#[test]
fn draw_of_height_zero_is_sixteen_by_sixteen_in_super_mode() {
    // The sprite is the program itself followed by zeros: 32 bytes from 0x200.
    let chip8 = after(&[0x00, 0xFF, 0xA2, 0x00, 0xD0, 0x00]);
    assert_eq!(chip8.screen_width(), 128);
    assert_eq!(chip8.screen().len(), 1024);
    // Rows 00FF, A200, D000.
    assert_eq!(
        lit_pixels(&chip8),
        vec![
            (0, 8), (0, 9), (0, 10), (0, 11), (0, 12), (0, 13), (0, 14), (0, 15),
            (1, 0), (1, 2), (1, 6),
            (2, 0), (2, 1), (2, 3)
        ]
    );
    assert!(chip8.should_draw());
}

#[test]
fn draw_of_height_zero_draws_nothing_in_standard_mode() {
    let chip8 = after(&[0x6F, 0x01, 0xAF, 0xFF, 0xD0, 0x00]);
    assert!(lit_pixels(&chip8).is_empty());
    assert!(chip8.should_draw());
    assert_eq!(chip8.registers()[15], 0);
}

#[test]
fn draw_that_reads_past_the_end_of_memory_is_out_of_bounds() {
    let mut chip8 = machine_with(&[0xAF, 0xFD, 0xD0, 0x03, 0xD0, 0x04]);
    run(&mut chip8, 2);
    assert!(chip8.should_draw());
    assert_eq!(chip8.execute_cycle(), Err(Chip8Error::OutOfBoundsAccess));
    assert_eq!(chip8.program_counter(), 0x204);
}

#[test]
fn skip_if_key_pressed_and_if_not() {
    let rom = [0x61, 0x0A, 0xE1, 0x9E, 0x00, 0x00, 0xE1, 0xA1];
    let mut chip8 = machine_with(&rom);
    run(&mut chip8, 2);
    assert_eq!(chip8.program_counter(), 0x204);
    let mut chip8 = machine_with(&rom);
    chip8.press_key(0xA);
    run(&mut chip8, 2);
    assert_eq!(chip8.program_counter(), 0x206);
    run(&mut chip8, 1);
    assert_eq!(chip8.program_counter(), 0x208);
    chip8.release_key(0xA);
    let mut chip8 = machine_with(&[0x61, 0x0A, 0xE1, 0xA1]);
    run(&mut chip8, 2);
    assert_eq!(chip8.program_counter(), 0x206);
}

#[test]
fn a_key_number_above_fifteen_is_never_pressed() {
    let mut chip8 = machine_with(&[0x61, 0x10, 0xE1, 0x9E, 0xE1, 0xA1]);
    for key in 0..16 {
        chip8.press_key(key);
    }
    run(&mut chip8, 2);
    assert_eq!(chip8.program_counter(), 0x204);
    run(&mut chip8, 1);
    assert_eq!(chip8.program_counter(), 0x208);
}

#[test]
fn wait_for_key_repeats_until_a_key_is_down() {
    let mut chip8 = machine_with(&[0xF3, 0x0A, 0x61, 0x01]);
    run(&mut chip8, 5);
    assert_eq!(chip8.program_counter(), 0x200);
    assert_eq!(chip8.registers()[3], 0);
    chip8.press_key(9);
    chip8.press_key(2);
    run(&mut chip8, 1);
    assert_eq!(chip8.program_counter(), 0x202);
    assert_eq!(chip8.registers()[3], 2);
}

#[test]
fn a_key_pressed_and_released_between_cycles_is_not_seen() {
    let mut chip8 = machine_with(&[0xF3, 0x0A]);
    run(&mut chip8, 1);
    chip8.press_key(5);
    chip8.release_key(5);
    run(&mut chip8, 1);
    assert_eq!(chip8.program_counter(), 0x200);
}

#[test]
fn decimal_digits_go_to_memory() {
    let chip8 = after(&[0x61, 254, 0xA3, 0x00, 0xF1, 0x33]);
    assert_eq!(chip8.memory()[0x300..0x303], [2, 5, 4]);
    let chip8 = after(&[0x61, 7, 0xA3, 0x00, 0xF1, 0x33]);
    assert_eq!(chip8.memory()[0x300..0x303], [0, 0, 7]);
    let chip8 = after(&[0x61, 109, 0xAF, 0xFD, 0xF1, 0x33]);
    assert_eq!(chip8.memory()[0xFFD..], [1, 0, 9]);
}

#[test]
fn decimal_digits_past_the_end_of_memory_are_out_of_bounds() {
    let mut chip8 = machine_with(&[0x61, 254, 0xAF, 0xFE, 0xF1, 0x33]);
    run(&mut chip8, 2);
    assert_eq!(chip8.execute_cycle(), Err(Chip8Error::OutOfBoundsAccess));
    assert_eq!(chip8.memory()[0xFFE], 0);
}

#[test]
fn registers_are_stored_up_to_and_including_x() {
    let chip8 = after(&[0x60, 0x11, 0x61, 0x22, 0x62, 0x33, 0x63, 0x44, 0xA4, 0x00, 0xF2, 0x55]);
    assert_eq!(chip8.memory()[0x400..0x404], [0x11, 0x22, 0x33, 0x00]);
    assert_eq!(chip8.index(), 0x400);
}

#[test]
fn registers_are_filled_up_to_and_including_x() {
    let chip8 = after(&[0x63, 0x77, 0xA0, 0x05, 0xF2, 0x65]);
    // Memory at 5 is the glyph of 1: 20 60 20 20 70.
    assert_eq!(chip8.registers()[..4], [0x20, 0x60, 0x20, 0x77]);
    assert_eq!(chip8.index(), 5);
}

#[test]
fn all_sixteen_registers_can_be_stored_and_filled() {
    let mut rom = Vec::new();
    for register in 0..16u8 {
        rom.extend_from_slice(&[0x60 | register, 0xA0 + register]);
    }
    rom.extend_from_slice(&[0xA8, 0x00, 0xFF, 0x55]);
    for register in 0..16u8 {
        rom.extend_from_slice(&[0x60 | register, 0x00]);
    }
    rom.extend_from_slice(&[0xFF, 0x65]);
    let chip8 = after(&rom);
    let expected: Vec<u8> = (0..16u8).map(|register| 0xA0 + register).collect();
    assert_eq!(chip8.memory()[0x800..0x810], expected[..]);
    assert_eq!(chip8.registers(), &expected[..]);
}

#[test]
fn store_and_fill_up_to_the_last_byte_of_memory() {
    let chip8 = after(&[0x60, 0x11, 0x61, 0x22, 0xAF, 0xFE, 0xF1, 0x55, 0x60, 0x00, 0x61, 0x00, 0xF1, 0x65]);
    assert_eq!(chip8.memory()[0xFFE..], [0x11, 0x22]);
    assert_eq!(chip8.registers()[..2], [0x11, 0x22]);
}

#[test]
fn store_and_fill_past_the_end_of_memory_are_out_of_bounds() {
    let mut chip8 = machine_with(&[0xAF, 0xFF, 0xF1, 0x55]);
    run(&mut chip8, 1);
    assert_eq!(chip8.execute_cycle(), Err(Chip8Error::OutOfBoundsAccess));
    let mut chip8 = machine_with(&[0xAF, 0xFF, 0xF1, 0x65]);
    run(&mut chip8, 1);
    assert_eq!(chip8.execute_cycle(), Err(Chip8Error::OutOfBoundsAccess));
    let chip8 = after(&[0xAF, 0xFF, 0xF0, 0x65]);
    assert_eq!(chip8.registers()[0], 0);
}

#[test]
fn persistent_flags_are_saved_and_restored() {
    let mut chip8 = after(&[
        0x60, 0x11, 0x61, 0x22, 0x62, 0x33, 0xF1, 0x75, 0x60, 0x00, 0x61, 0x00, 0x62, 0x00, 0xF2,
        0x85,
    ]);
    assert_eq!(chip8.registers()[..3], [0x11, 0x22, 0x00]);
    assert_eq!(chip8.index(), 0);
    // Everything up to the eighth register can be saved.
    assert_eq!(chip8.load_rom(&[0x67, 0x99, 0xF7, 0x75, 0x67, 0x00, 0xF7, 0x85], true), Ok(()));
    run(&mut chip8, 4);
    assert_eq!(chip8.registers()[7], 0x99);
}

#[test]
fn persistent_flags_beyond_the_eighth_are_no_instruction() {
    let mut chip8 = machine_with(&[0xF8, 0x75]);
    assert_eq!(
        chip8.execute_cycle(),
        Err(Chip8Error::InvalidOpcode { opcode: 0xF875, pc: 0x200 })
    );
    let mut chip8 = machine_with(&[0xF8, 0x85]);
    assert_eq!(
        chip8.execute_cycle(),
        Err(Chip8Error::InvalidOpcode { opcode: 0xF885, pc: 0x200 })
    );
}

#[test]
fn mode_switches_change_the_dimensions_and_ask_for_a_redraw() {
    let mut chip8 = machine_with(&[0x60, 0x00, 0x00, 0xFF, 0x60, 0x00, 0x00, 0xFE]);
    run(&mut chip8, 1);
    assert!(!chip8.should_draw());
    run(&mut chip8, 1);
    assert!(chip8.should_draw());
    assert_eq!(chip8.screen_width(), 128);
    assert_eq!(chip8.screen_height(), 64);
    assert_eq!(chip8.screen().len(), 1024);
    run(&mut chip8, 1);
    assert!(!chip8.should_draw());
    run(&mut chip8, 1);
    assert!(chip8.should_draw());
    assert_eq!(chip8.screen_width(), 64);
    assert_eq!(chip8.screen_height(), 32);
    assert_eq!(chip8.screen().len(), 256);
}

#[test]
fn scroll_instructions_move_the_picture() {
    // Draw the top row of the glyph of 0 at column 8, row 0: columns 8 to 11.
    let start = [0x60, 0x08, 0x61, 0x00, 0xA0, 0x00, 0xD0, 0x11, 0x62, 0x00];
    let with = |last: [u8; 2]| {
        let mut rom = start.to_vec();
        rom.extend_from_slice(&last);
        let chip8 = after(&rom);
        assert!(chip8.should_draw());
        lit_pixels(&chip8)
    };
    assert_eq!(with([0x00, 0xC3]), vec![(3, 8), (3, 9), (3, 10), (3, 11)]);
    assert_eq!(with([0x00, 0xC0]), vec![(0, 8), (0, 9), (0, 10), (0, 11)]);
    assert_eq!(with([0x00, 0xFB]), vec![(0, 12), (0, 13), (0, 14), (0, 15)]);
    assert_eq!(with([0x00, 0xFC]), vec![(0, 4), (0, 5), (0, 6), (0, 7)]);
}

#[test]
fn the_exported_picture_is_packed_lowest_bit_first() {
    let chip8 = after(&[0xA0, 0x00, 0xD0, 0x01]);
    // Columns 0 to 3 of row 0 are lit.
    assert_eq!(chip8.screen()[0], 0x0F);
    assert!(chip8.screen()[1..].iter().all(|byte| *byte == 0));
}

#[test]
fn pressing_and_releasing_keys_touches_nothing_else() {
    let mut chip8 = after(&[0x61, 0x42, 0xA1, 0x23]);
    chip8.press_key(0);
    chip8.press_key(15);
    chip8.release_key(0);
    assert_eq!(chip8.registers()[1], 0x42);
    assert_eq!(chip8.index(), 0x123);
    assert_eq!(chip8.program_counter(), 0x204);
}
