use chip8::{Chip8Error, StepEvent, CPU};

fn load(program: &[u8]) -> CPU {
    CPU::new(program).expect("program fits")
}

fn run(program: &[u8], steps: usize) -> CPU {
    let mut cpu = load(program);
    for _ in 0..steps {
        assert_eq!(cpu.execute_with_random(0), Ok(StepEvent::Executed));
    }
    cpu
}

#[test]
fn load_constant_sets_register() {
    for x in 0..16u8 {
        for nn in [0u8, 1, 0x2A, 0x80, 0xFF] {
            let cpu = run(&[0x60 | x, nn], 1);
            assert_eq!(cpu.register(x as usize), nn);
            assert_eq!(cpu.program_counter(), 0x202);
        }
    }
}

#[test]
fn add_constant_wraps_and_keeps_flag() {
    for (a, b) in [(0u8, 0u8), (250, 10), (255, 255), (1, 2), (128, 128)] {
        let cpu = run(&[0x6F, 0x07, 0x63, a, 0x73, b], 3);
        assert_eq!(cpu.register(3), ((a as u16 + b as u16) % 256) as u8);
        assert_eq!(cpu.register(0xF), 0x07);
    }
}

#[test]
fn add_registers_sets_carry() {
    let cpu = run(&[0x60, 250, 0x61, 10, 0x80, 0x14], 3);
    assert_eq!(cpu.register(0), 4);
    assert_eq!(cpu.register(0xF), 1);
    let cpu = run(&[0x60, 1, 0x61, 1, 0x80, 0x14], 3);
    assert_eq!(cpu.register(0), 2);
    assert_eq!(cpu.register(0xF), 0);
}

#[test]
fn subtract_equal_operands_clears_flag() {
    let cpu = run(&[0x60, 5, 0x61, 5, 0x80, 0x15], 3);
    assert_eq!(cpu.register(0), 0);
    assert_eq!(cpu.register(0xF), 0);
}

#[test]
fn subtract_with_borrow_wraps() {
    let cpu = run(&[0x60, 3, 0x61, 5, 0x80, 0x15], 3);
    assert_eq!(cpu.register(0), 254);
    assert_eq!(cpu.register(0xF), 0);
    let cpu = run(&[0x60, 9, 0x61, 5, 0x80, 0x15], 3);
    assert_eq!(cpu.register(0), 4);
    assert_eq!(cpu.register(0xF), 1);
}

#[test]
fn reverse_subtract_sets_flag() {
    let cpu = run(&[0x60, 5, 0x61, 9, 0x80, 0x17], 3);
    assert_eq!(cpu.register(0), 4);
    assert_eq!(cpu.register(0xF), 1);
    let cpu = run(&[0x60, 9, 0x61, 5, 0x80, 0x17], 3);
    assert_eq!(cpu.register(0), 252);
    assert_eq!(cpu.register(0xF), 0);
}

#[test]
fn logic_and_move_instructions() {
    let cpu = run(&[0x60, 0b1100, 0x61, 0b1010, 0x80, 0x11], 3);
    assert_eq!(cpu.register(0), 0b1110);
    let cpu = run(&[0x60, 0b1100, 0x61, 0b1010, 0x80, 0x12], 3);
    assert_eq!(cpu.register(0), 0b1000);
    let cpu = run(&[0x60, 0b1100, 0x61, 0b1010, 0x80, 0x13], 3);
    assert_eq!(cpu.register(0), 0b0110);
    let cpu = run(&[0x60, 1, 0x61, 77, 0x80, 0x10], 3);
    assert_eq!(cpu.register(0), 77);
    assert_eq!(cpu.register(1), 77);
}

#[test]
fn shifts_set_flag_from_shifted_out_bit() {
    let cpu = run(&[0x60, 0b1000_0101, 0x80, 0x16], 2);
    assert_eq!(cpu.register(0), 0b0100_0010);
    assert_eq!(cpu.register(0xF), 1);
    let cpu = run(&[0x60, 0b1000_0101, 0x80, 0x1E], 2);
    assert_eq!(cpu.register(0), 0b0000_1010);
    assert_eq!(cpu.register(0xF), 1);
    let cpu = run(&[0x60, 0b0100_0100, 0x80, 0x1E], 2);
    assert_eq!(cpu.register(0), 0b1000_1000);
    assert_eq!(cpu.register(0xF), 0);
}

#[test]
fn clear_screen_darkens_every_cell() {
    // draw glyph 0, then clear
    let mut cpu = run(&[0xD0, 0x05, 0x00, 0xE0], 1);
    assert!(cpu.mmio.video_memory[0][0] == 1);
    assert_eq!(cpu.execute_with_random(0), Ok(StepEvent::Executed));
    assert!(cpu.get_draw_flag());
    for row in cpu.mmio.video_memory.iter() {
        assert!(row.iter().all(|&c| c == 0));
    }
}

#[test]
fn redraw_flag_cleared_by_next_cycle() {
    let mut cpu = run(&[0x00, 0xE0, 0x60, 0x01], 1);
    assert!(cpu.get_draw_flag());
    assert_eq!(cpu.execute_with_random(0), Ok(StepEvent::Executed));
    assert!(!cpu.get_draw_flag());
}

#[test]
fn font_address_of_digit_five() {
    let cpu = run(&[0x60, 5, 0xF0, 0x29], 2);
    assert_eq!(cpu.index_register(), 25);
    let glyph: Vec<u8> = (25..30).map(|a| cpu.read_memory(a).unwrap()).collect();
    assert_eq!(glyph, vec![0xF0, 0x80, 0xF0, 0x10, 0xF0]);
}

#[test]
fn bcd_of_156() {
    let cpu = run(&[0x60, 156, 0xA3, 0x00, 0xF0, 0x33], 3);
    assert_eq!(cpu.read_memory(0x300), Ok(1));
    assert_eq!(cpu.read_memory(0x301), Ok(5));
    assert_eq!(cpu.read_memory(0x302), Ok(6));
}

#[test]
fn bcd_past_end_of_memory_fails() {
    let mut cpu = run(&[0xAF, 0xFE, 0xF0, 0x33], 1);
    assert_eq!(cpu.execute_with_random(0), Err(Chip8Error::AddressOutOfRange));
    assert_eq!(cpu.program_counter(), 0x202);
}

#[test]
fn call_at_depth_fifteen_overflows() {
    // 0x200: call 0x200, forever
    let mut cpu = load(&[0x22, 0x00]);
    for depth in 1..=15 {
        assert_eq!(cpu.execute_with_random(0), Ok(StepEvent::Executed));
        assert_eq!(cpu.stack_pointer(), depth);
    }
    assert_eq!(cpu.execute_with_random(0), Err(Chip8Error::StackOverflow));
    assert_eq!(cpu.stack_pointer(), 15);
}

#[test]
fn return_with_empty_stack_underflows() {
    let mut cpu = load(&[0x00, 0xEE]);
    assert_eq!(cpu.execute_with_random(0), Err(Chip8Error::StackUnderflow));
    assert_eq!(cpu.program_counter(), 0x200);
    assert_eq!(cpu.stack_pointer(), 0);
}

#[test]
fn call_then_return_resumes_after_call() {
    // 0x200: call 0x206; 0x202: V0 = 1; 0x204: jump 0x204; 0x206: ret
    let mut cpu = run(&[0x22, 0x06, 0x60, 0x01, 0x12, 0x04, 0x00, 0xEE], 1);
    assert_eq!(cpu.program_counter(), 0x206);
    assert_eq!(cpu.stack_pointer(), 1);
    assert_eq!(cpu.execute_with_random(0), Ok(StepEvent::Executed));
    assert_eq!(cpu.program_counter(), 0x202);
    assert_eq!(cpu.stack_pointer(), 0);
    assert_eq!(cpu.execute_with_random(0), Ok(StepEvent::Executed));
    assert_eq!(cpu.register(0), 1);
}

#[test]
fn program_draws_font_glyph_top_row() {
    // the low nibble of a draw is its row count: one row here
    let cpu = run(&[0x00, 0xE0, 0x60, 0x00, 0x61, 0x00, 0xD0, 0x11], 4);
    let expected: Vec<u8> = (0..64).map(|x| if x < 4 { 1 } else { 0 }).collect();
    assert_eq!(cpu.mmio.video_memory[0].to_vec(), expected);
    for row in cpu.mmio.video_memory[1..].iter() {
        assert!(row.iter().all(|&c| c == 0));
    }
    assert_eq!(cpu.register(0xF), 0);
    assert!(cpu.get_draw_flag());
}

#[test]
fn program_draws_glyph_one_top_row() {
    // I = 5 (glyph 1, top row 0x20)
    let cpu = run(&[0x00, 0xE0, 0xA0, 0x05, 0x60, 0x00, 0x61, 0x00, 0xD0, 0x11], 5);
    let expected: Vec<u8> = (0..64).map(|x| if x == 2 { 1 } else { 0 }).collect();
    assert_eq!(cpu.mmio.video_memory[0].to_vec(), expected);
}

#[test]
fn zero_row_sprite_draws_nothing() {
    let cpu = run(&[0x00, 0xE0, 0x60, 0x00, 0x61, 0x00, 0xD0, 0x10], 4);
    for row in cpu.mmio.video_memory.iter() {
        assert!(row.iter().all(|&c| c == 0));
    }
    assert_eq!(cpu.register(0xF), 0);
    assert!(cpu.get_draw_flag());
}

#[test]
fn drawing_twice_erases_and_reports_collision() {
    let mut cpu = run(&[0x60, 62, 0x61, 30, 0xD0, 0x15, 0xD0, 0x15], 3);
    assert_eq!(cpu.register(0xF), 0);
    // wraps around both edges
    assert_eq!(cpu.mmio.video_memory[30][62], 1);
    assert_eq!(cpu.mmio.video_memory[30][1], 1);
    assert_eq!(cpu.mmio.video_memory[1][62], 1);
    assert_eq!(cpu.execute_with_random(0), Ok(StepEvent::Executed));
    assert_eq!(cpu.register(0xF), 1);
    for row in cpu.mmio.video_memory.iter() {
        assert!(row.iter().all(|&c| c == 0));
    }
}

#[test]
fn draw_past_end_of_memory_fails() {
    let mut cpu = run(&[0xAF, 0xFE, 0xD0, 0x03], 1);
    assert_eq!(cpu.execute_with_random(0), Err(Chip8Error::AddressOutOfRange));
    assert!(!cpu.get_draw_flag());
}

#[test]
fn fetch_past_end_of_memory_fails() {
    let mut cpu = run(&[0x1F, 0xFF], 1);
    assert_eq!(cpu.program_counter(), 0xFFF);
    assert_eq!(cpu.execute_with_random(0), Err(Chip8Error::AddressOutOfRange));
}

#[test]
fn program_too_large_is_refused() {
    assert!(matches!(CPU::new(&vec![0u8; 3585]), Err(Chip8Error::ProgramTooLarge)));
    assert!(CPU::new(&vec![0u8; 3584]).is_ok());
}

#[test]
fn unknown_opcode_is_skipped() {
    let mut cpu = load(&[0x80, 0x09, 0xE0, 0x00, 0xF0, 0xFF]);
    assert_eq!(cpu.execute_with_random(0), Ok(StepEvent::UnknownOpcode(0x8009)));
    assert_eq!(cpu.program_counter(), 0x202);
    assert_eq!(cpu.execute_with_random(0), Ok(StepEvent::UnknownOpcode(0xE000)));
    assert_eq!(cpu.execute_with_random(0), Ok(StepEvent::UnknownOpcode(0xF0FF)));
    assert_eq!(cpu.program_counter(), 0x206);
}

#[test]
fn system_call_is_ignored() {
    let cpu = run(&[0x03, 0x45], 1);
    assert_eq!(cpu.program_counter(), 0x202);
}

#[test]
fn skips_on_register_comparisons() {
    let cpu = run(&[0x60, 7, 0x30, 7], 2);
    assert_eq!(cpu.program_counter(), 0x206);
    let cpu = run(&[0x60, 7, 0x30, 8], 2);
    assert_eq!(cpu.program_counter(), 0x204);
    let cpu = run(&[0x60, 7, 0x40, 8], 2);
    assert_eq!(cpu.program_counter(), 0x206);
    let cpu = run(&[0x60, 7, 0x61, 7, 0x50, 0x10], 3);
    assert_eq!(cpu.program_counter(), 0x208);
    let cpu = run(&[0x60, 7, 0x61, 7, 0x90, 0x10], 3);
    assert_eq!(cpu.program_counter(), 0x206);
}

#[test]
fn jumps_and_index_register() {
    let cpu = run(&[0x13, 0x45], 1);
    assert_eq!(cpu.program_counter(), 0x345);
    let cpu = run(&[0x60, 0x10, 0xB3, 0x00], 2);
    assert_eq!(cpu.program_counter(), 0x310);
    let cpu = run(&[0xA1, 0x23, 0x60, 0x10, 0xF0, 0x1E], 3);
    assert_eq!(cpu.index_register(), 0x133);
}

#[test]
fn index_addition_carries_past_twelve_bits() {
    let cpu = run(&[0xAF, 0xFF, 0x60, 0x02, 0xF0, 0x1E], 3);
    assert_eq!(cpu.index_register(), 0x1001);
}

#[test]
fn random_byte_is_masked() {
    let mut cpu = load(&[0xC0, 0x0F, 0xC1, 0x00, 0xC2, 0xFF]);
    assert_eq!(cpu.execute_with_random(0xAB), Ok(StepEvent::Executed));
    assert_eq!(cpu.register(0), 0x0B);
    assert_eq!(cpu.execute_next_opcode(), Ok(StepEvent::Executed));
    assert_eq!(cpu.register(1), 0);
    assert_eq!(cpu.execute_with_random(0x5C), Ok(StepEvent::Executed));
    assert_eq!(cpu.register(2), 0x5C);
}

#[test]
fn drawn_random_byte_respects_mask() {
    for _ in 0..50 {
        let mut cpu = load(&[0xC3, 0x0F]);
        assert_eq!(cpu.execute_next_opcode(), Ok(StepEvent::Executed));
        assert!(cpu.register(3) <= 0x0F);
    }
}

#[test]
fn timers_load_and_tick() {
    let mut cpu = run(&[0x60, 2, 0xF0, 0x15, 0x61, 1, 0xF1, 0x18, 0xF5, 0x07], 5);
    assert_eq!(cpu.register(5), 2);
    assert_eq!(cpu.delay_timer(), 2);
    assert_eq!(cpu.sound_timer(), 1);
    assert!(cpu.update_timers());
    assert_eq!(cpu.delay_timer(), 1);
    assert_eq!(cpu.sound_timer(), 0);
    assert!(!cpu.update_timers());
    assert_eq!(cpu.delay_timer(), 0);
    assert!(!cpu.update_timers());
    assert_eq!(cpu.delay_timer(), 0);
    assert_eq!(cpu.sound_timer(), 0);
}

#[test]
fn wait_for_key_polls_until_pressed() {
    let mut cpu = load(&[0xF4, 0x0A]);
    assert_eq!(cpu.execute_with_random(0), Ok(StepEvent::Executed));
    assert_eq!(cpu.program_counter(), 0x200);
    let mut keys = [false; 16];
    keys[0xB] = true;
    keys[0x7] = true;
    cpu.set_input(keys);
    assert_eq!(cpu.execute_with_random(0), Ok(StepEvent::Executed));
    assert_eq!(cpu.program_counter(), 0x202);
    assert_eq!(cpu.register(4), 7);
}

#[test]
fn key_skips() {
    let mut keys = [false; 16];
    keys[0xA] = true;
    let mut cpu = load(&[0x60, 0x0A, 0xE0, 0x9E, 0x00, 0x00, 0x00, 0x00, 0xE0, 0xA1]);
    cpu.set_input(keys);
    assert_eq!(cpu.execute_with_random(0), Ok(StepEvent::Executed));
    assert_eq!(cpu.execute_with_random(0), Ok(StepEvent::Executed));
    assert_eq!(cpu.program_counter(), 0x206);
    assert_eq!(cpu.execute_with_random(0), Ok(StepEvent::Executed));
    assert_eq!(cpu.program_counter(), 0x208);
    assert_eq!(cpu.execute_with_random(0), Ok(StepEvent::Executed));
    assert_eq!(cpu.program_counter(), 0x20A);
}

#[test]
fn key_beyond_sixteen_is_never_pressed() {
    let mut cpu = load(&[0x60, 0x20, 0xE0, 0x9E]);
    cpu.set_input([true; 16]);
    let _ = cpu.execute_with_random(0);
    assert_eq!(cpu.execute_with_random(0), Ok(StepEvent::Executed));
    assert_eq!(cpu.program_counter(), 0x204);
}

#[test]
fn store_and_load_registers_inclusive() {
    let cpu = run(
        &[0x60, 11, 0x61, 22, 0x62, 33, 0x63, 44, 0xA4, 0x00, 0xF2, 0x55],
        6,
    );
    assert_eq!(cpu.read_memory(0x400), Ok(11));
    assert_eq!(cpu.read_memory(0x401), Ok(22));
    assert_eq!(cpu.read_memory(0x402), Ok(33));
    assert_eq!(cpu.read_memory(0x403), Ok(0));
    assert_eq!(cpu.read_memory(0), Ok(0xF0));
    // read glyph 1 back into V0..V2
    let cpu = run(&[0x63, 99, 0xA0, 0x05, 0xF2, 0x65], 3);
    assert_eq!(cpu.register(0), 0x20);
    assert_eq!(cpu.register(1), 0x60);
    assert_eq!(cpu.register(2), 0x20);
    assert_eq!(cpu.register(3), 99);
}

#[test]
fn register_transfer_past_end_fails() {
    let mut cpu = run(&[0xAF, 0xFE, 0xF2, 0x55], 1);
    assert_eq!(cpu.execute_with_random(0), Err(Chip8Error::AddressOutOfRange));
    let mut cpu = run(&[0xAF, 0xFE, 0xF1, 0x65], 1);
    assert_eq!(cpu.execute_with_random(0), Ok(StepEvent::Executed));
}
