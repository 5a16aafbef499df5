use chip8::{decode, Chip8, Chip8Error, Instruction, RunState};

fn machine(rom: &[u8]) -> Chip8 {
    let mut c = Chip8::new();
    c.initialize(0x200);
    c.load_program(rom.to_vec()).unwrap();
    c
}

fn run(c: &mut Chip8, cycles: usize) {
    for _ in 0..cycles {
        c.emulate_cycle_with(0).unwrap();
    }
}

#[test]
fn fetch_joins_two_bytes_big_endian() {
    let c = machine(&[0xA2, 0xF0]);
    assert_eq!(c.decode_opcode(), Ok(0xA2F0));
    assert_eq!(c.pc(), 0x200);
}

#[test]
fn fetch_past_end_of_memory_fails() {
    let mut c = Chip8::new();
    c.initialize(0xFFF);
    assert_eq!(c.decode_opcode(), Err(Chip8Error::PcOutOfRange { pc: 0xFFF }));
    assert_eq!(c.emulate_cycle_with(0), Err(Chip8Error::PcOutOfRange { pc: 0xFFF }));
    assert_eq!(c.pc(), 0xFFF);
}

#[test]
fn fetch_at_last_word_succeeds() {
    let mut c = Chip8::new();
    c.initialize(0xFFE);
    assert_eq!(c.decode_opcode(), Ok(0x0000));
}

#[test]
fn add_registers_wraps_and_sets_carry() {
    let mut c = machine(&[0x60, 0xFF, 0x61, 0x01, 0x80, 0x14]);
    run(&mut c, 3);
    assert_eq!(c.register(0), 0x00);
    assert_eq!(c.register(0xF), 1);
}

#[test]
fn add_registers_without_carry_clears_flag() {
    let mut c = machine(&[0x6F, 0x07, 0x60, 0x10, 0x61, 0x20, 0x80, 0x14]);
    run(&mut c, 4);
    assert_eq!(c.register(0), 0x30);
    assert_eq!(c.register(0xF), 0);
}

#[test]
fn subtract_with_borrow_wraps_and_clears_flag() {
    let mut c = machine(&[0x60, 0x01, 0x61, 0x02, 0x80, 0x15]);
    run(&mut c, 3);
    assert_eq!(c.register(0), 0xFF);
    assert_eq!(c.register(0xF), 0);
}

#[test]
fn subtract_equal_values_is_not_a_borrow() {
    let mut c = machine(&[0x60, 0x05, 0x61, 0x05, 0x80, 0x15]);
    run(&mut c, 3);
    assert_eq!(c.register(0), 0x00);
    assert_eq!(c.register(0xF), 1);
}

#[test]
fn reverse_subtract_sets_not_borrow() {
    let mut c = machine(&[0x60, 0x02, 0x61, 0x07, 0x80, 0x17]);
    run(&mut c, 3);
    assert_eq!(c.register(0), 0x05);
    assert_eq!(c.register(0xF), 1);
}

#[test]
fn shift_right_moves_low_bit_to_flag() {
    let mut c = machine(&[0x60, 0x03, 0x80, 0x06]);
    run(&mut c, 2);
    assert_eq!(c.register(0), 0x01);
    assert_eq!(c.register(0xF), 1);
}

#[test]
fn shift_left_moves_high_bit_to_flag() {
    let mut c = machine(&[0x60, 0x81, 0x80, 0x0E]);
    run(&mut c, 2);
    assert_eq!(c.register(0), 0x02);
    assert_eq!(c.register(0xF), 1);
}

#[test]
fn flag_register_as_destination_keeps_result() {
    let mut c = machine(&[0x6F, 0xFF, 0x61, 0x01, 0x8F, 0x14]);
    run(&mut c, 3);
    assert_eq!(c.register(0xF), 0x00);
}

#[test]
fn add_immediate_wraps_without_flag() {
    let mut c = machine(&[0x60, 0xFF, 0x70, 0x02]);
    run(&mut c, 2);
    assert_eq!(c.register(0), 0x01);
    assert_eq!(c.register(0xF), 0);
}

#[test]
fn bitwise_operations() {
    let mut c = machine(&[
        0x60, 0x0C, 0x61, 0x0A, 0x62, 0x0C, 0x63, 0x0C, 0x80, 0x11, 0x82, 0x12, 0x83, 0x13,
    ]);
    run(&mut c, 7);
    assert_eq!(c.register(0), 0x0E);
    assert_eq!(c.register(2), 0x08);
    assert_eq!(c.register(3), 0x06);
}

#[test]
fn call_then_return_restores_pc_and_depth() {
    let mut rom = vec![0u8; 0x102];
    rom[0] = 0x23;
    rom[1] = 0x00;
    rom[0x100] = 0x00;
    rom[0x101] = 0xEE;
    let mut c = machine(&rom);
    run(&mut c, 1);
    assert_eq!(c.pc(), 0x300);
    assert_eq!(c.stack_pointer(), 1);
    run(&mut c, 1);
    assert_eq!(c.pc(), 0x202);
    assert_eq!(c.stack_pointer(), 0);
}

#[test]
fn return_with_empty_stack_is_a_fault() {
    let mut c = machine(&[0x00, 0xEE]);
    assert_eq!(
        c.emulate_cycle_with(0),
        Err(Chip8Error::StackUnderflow { opcode: 0x00EE, pc: 0x202 })
    );
    assert_eq!(c.pc(), 0x200);
    assert_eq!(c.stack_pointer(), 0);
}

#[test]
fn seventeenth_nested_call_is_a_fault() {
    let mut c = machine(&[0x22, 0x00]);
    run(&mut c, 16);
    assert_eq!(c.stack_pointer(), 16);
    assert_eq!(
        c.emulate_cycle_with(0),
        Err(Chip8Error::StackOverflow { opcode: 0x2200, pc: 0x202 })
    );
    assert_eq!(c.stack_pointer(), 16);
}

#[test]
fn unknown_opcodes_are_faults() {
    let mut c = machine(&[0x01, 0x23]);
    assert_eq!(
        c.emulate_cycle_with(0),
        Err(Chip8Error::UnknownOpcode { opcode: 0x0123, pc: 0x202 })
    );
    assert_eq!(c.pc(), 0x200);
    let mut c = machine(&[0x80, 0x08]);
    assert_eq!(
        c.emulate_cycle_with(0),
        Err(Chip8Error::UnknownOpcode { opcode: 0x8008, pc: 0x202 })
    );
    let mut c = machine(&[0xE0, 0x00]);
    assert!(matches!(c.emulate_cycle_with(0), Err(Chip8Error::UnknownOpcode { .. })));
    let mut c = machine(&[0xF0, 0xFF]);
    assert!(matches!(c.emulate_cycle_with(0), Err(Chip8Error::UnknownOpcode { .. })));
}

#[test]
fn draw_same_sprite_twice_clears_and_collides() {
    let mut c = machine(&[0xA2, 0x08, 0xD0, 0x11, 0xD0, 0x11, 0x00, 0x00, 0xFF]);
    run(&mut c, 2);
    assert_eq!(c.register(0xF), 0);
    for x in 0..8 {
        assert_eq!(c.get_display()[x], 1);
    }
    assert_eq!(c.get_display()[8], 0);
    assert!(c.draw_flag());
    run(&mut c, 1);
    assert_eq!(c.register(0xF), 1);
    assert!(c.get_display().iter().all(|&p| p == 0));
}

#[test]
fn draw_wraps_around_right_edge() {
    let mut c = machine(&[0x60, 0x3C, 0x61, 0x05, 0xA2, 0x0A, 0xD0, 0x11, 0x00, 0x00, 0xFF]);
    run(&mut c, 4);
    let d = c.get_display();
    for x in 60..64 {
        assert_eq!(d[5 * 64 + x], 1);
    }
    for x in 0..4 {
        assert_eq!(d[5 * 64 + x], 1);
    }
    assert_eq!(d[5 * 64 + 4], 0);
    assert_eq!(d[5 * 64 + 59], 0);
    assert_eq!(d.iter().filter(|&&p| p == 1).count(), 8);
    assert_eq!(c.register(0xF), 0);
}

#[test]
fn draw_wraps_around_bottom_edge() {
    let mut c = machine(&[0x60, 0x00, 0x61, 0x1F, 0xA2, 0x0A, 0xD0, 0x12, 0x00, 0x00, 0x80, 0x80]);
    run(&mut c, 4);
    let d = c.get_display();
    assert_eq!(d[31 * 64], 1);
    assert_eq!(d[0], 1);
    assert_eq!(d.iter().filter(|&&p| p == 1).count(), 2);
}

#[test]
fn draw_font_glyph_of_zero() {
    let mut c = machine(&[0x60, 0x00, 0xF0, 0x29, 0xD0, 0x05]);
    run(&mut c, 3);
    assert_eq!(c.index(), 0);
    let d = c.get_display();
    let row0: Vec<u8> = d[0..4].to_vec();
    assert_eq!(row0, vec![1, 1, 1, 1]);
    assert_eq!(d[64..68].to_vec(), vec![1, 0, 0, 1]);
}

#[test]
fn clear_screen_zeroes_framebuffer() {
    let mut c = machine(&[0xA2, 0x06, 0xD0, 0x11, 0x00, 0xE0, 0xFF]);
    run(&mut c, 2);
    c.set_draw_flag(false);
    run(&mut c, 1);
    assert!(c.get_display().iter().all(|&p| p == 0));
    assert!(c.draw_flag());
}

#[test]
fn draw_past_end_of_memory_is_a_fault() {
    let mut c = machine(&[0xAF, 0xFF, 0xD0, 0x12]);
    run(&mut c, 1);
    assert_eq!(
        c.emulate_cycle_with(0),
        Err(Chip8Error::AddressOutOfRange { opcode: 0xD012, pc: 0x204 })
    );
}

#[test]
fn wait_for_key_holds_until_press() {
    let mut c = machine(&[0xF3, 0x0A, 0x60, 0x01]);
    run(&mut c, 1);
    assert_eq!(c.run_state(), RunState::WaitingForKey(3));
    assert_eq!(c.pc(), 0x200);
    run(&mut c, 3);
    assert_eq!(c.pc(), 0x200);
    c.set_key(5, false);
    run(&mut c, 1);
    assert_eq!(c.pc(), 0x200);
    assert_eq!(c.run_state(), RunState::WaitingForKey(3));
    c.set_key(7, true);
    assert_eq!(c.register(3), 7);
    assert_eq!(c.run_state(), RunState::KeyReceived);
    assert_eq!(c.pc(), 0x200);
    run(&mut c, 1);
    assert_eq!(c.pc(), 0x202);
    assert_eq!(c.run_state(), RunState::Running);
    assert_eq!(c.register(0), 0);
    run(&mut c, 1);
    assert_eq!(c.pc(), 0x204);
    assert_eq!(c.register(0), 1);
}

#[test]
fn draw_clears_flag_before_reading_coordinates() {
    let mut c = machine(&[0x6F, 0x05, 0x61, 0x00, 0xA2, 0x08, 0xDF, 0x11, 0x80]);
    run(&mut c, 4);
    let d = c.get_display();
    assert_eq!(d[0], 1);
    assert_eq!(d[5], 0);
    assert_eq!(c.register(0xF), 0);
}

#[test]
fn load_then_add_end_to_end() {
    let mut c = machine(&[0x60, 0x05, 0x70, 0x03]);
    c.emulate_cycle().unwrap();
    c.emulate_cycle().unwrap();
    assert_eq!(c.register(0), 8);
    assert_eq!(c.pc(), 0x204);
}

#[test]
fn skip_instructions() {
    let mut c = machine(&[0x60, 0x05, 0x30, 0x05, 0x00, 0x00, 0x40, 0x05, 0x61, 0x01]);
    run(&mut c, 2);
    assert_eq!(c.pc(), 0x206);
    run(&mut c, 1);
    assert_eq!(c.pc(), 0x208);
    let mut c = machine(&[0x60, 0x05, 0x61, 0x05, 0x50, 0x10, 0x00, 0x00, 0x90, 0x10]);
    run(&mut c, 3);
    assert_eq!(c.pc(), 0x208);
    run(&mut c, 1);
    assert_eq!(c.pc(), 0x20A);
}

#[test]
fn skip_on_key_state() {
    let mut c = machine(&[0x60, 0x04, 0xE0, 0x9E, 0x00, 0x00, 0xE0, 0xA1]);
    c.set_key(4, true);
    run(&mut c, 2);
    assert_eq!(c.pc(), 0x206);
    run(&mut c, 1);
    assert_eq!(c.pc(), 0x208);
    let mut c = machine(&[0x60, 0x04, 0xE0, 0xA1]);
    run(&mut c, 2);
    assert_eq!(c.pc(), 0x206);
}

#[test]
fn jumps() {
    let mut c = machine(&[0x12, 0x40]);
    run(&mut c, 1);
    assert_eq!(c.pc(), 0x240);
    let mut c = machine(&[0x60, 0x02, 0xB3, 0x00]);
    run(&mut c, 2);
    assert_eq!(c.pc(), 0x302);
}

#[test]
fn random_byte_is_masked() {
    let mut c = machine(&[0xC0, 0x0F, 0xC1, 0x00]);
    c.emulate_cycle_with(0xAB).unwrap();
    assert_eq!(c.register(0), 0x0B);
    c.emulate_cycle().unwrap();
    assert_eq!(c.register(1), 0);
}

#[test]
fn timers_count_down_and_report_tone_end() {
    let mut c = machine(&[0x60, 0x02, 0xF0, 0x18, 0xF0, 0x15, 0xF1, 0x07]);
    run(&mut c, 3);
    assert_eq!(c.sound_timer(), 2);
    assert_eq!(c.delay_timer(), 2);
    assert!(!c.tick_timers());
    assert!(c.tick_timers());
    assert_eq!(c.sound_timer(), 0);
    assert!(!c.tick_timers());
    assert_eq!(c.delay_timer(), 0);
    run(&mut c, 1);
    assert_eq!(c.register(1), 0);
}

#[test]
fn cycles_do_not_touch_timers() {
    let mut c = machine(&[0x60, 0x09, 0xF0, 0x15, 0x61, 0x00, 0xF2, 0x07]);
    run(&mut c, 4);
    assert_eq!(c.delay_timer(), 9);
    assert_eq!(c.register(2), 9);
}

#[test]
fn binary_coded_decimal() {
    let mut c = machine(&[0x60, 0xFE, 0xA3, 0x00, 0xF0, 0x33]);
    run(&mut c, 3);
    assert_eq!(c.memory_at(0x300), 2);
    assert_eq!(c.memory_at(0x301), 5);
    assert_eq!(c.memory_at(0x302), 4);
}

#[test]
fn store_and_load_registers_advance_index() {
    let mut c = machine(&[
        0x60, 0x11, 0x61, 0x22, 0x62, 0x33, 0xA3, 0x00, 0xF1, 0x55, 0xA3, 0x00, 0xF2, 0x65,
    ]);
    run(&mut c, 5);
    assert_eq!(c.memory_at(0x300), 0x11);
    assert_eq!(c.memory_at(0x301), 0x22);
    assert_eq!(c.memory_at(0x302), 0x00);
    assert_eq!(c.index(), 0x302);
    run(&mut c, 2);
    assert_eq!(c.register(0), 0x11);
    assert_eq!(c.register(1), 0x22);
    assert_eq!(c.register(2), 0x00);
    assert_eq!(c.index(), 0x303);
}

#[test]
fn add_to_index() {
    let mut c = machine(&[0x60, 0x10, 0xA1, 0x00, 0xF0, 0x1E]);
    run(&mut c, 3);
    assert_eq!(c.index(), 0x110);
}

#[test]
fn initialize_loads_font_and_start() {
    let c = machine(&[]);
    assert_eq!(c.pc(), 0x200);
    assert_eq!(c.memory_at(0), 0xF0);
    assert_eq!(c.memory_at(5), 0x20);
    assert_eq!(c.memory_at(79), 0x80);
    assert_eq!(c.memory_at(80), 0);
    assert_eq!(c.stack_pointer(), 0);
    assert!(!c.draw_flag());
}

#[test]
fn new_machine_is_zeroed() {
    let c = Chip8::new();
    assert_eq!(c.pc(), 0);
    assert_eq!(c.memory_at(0), 0);
    assert!(c.get_display().iter().all(|&p| p == 0));
}

#[test]
fn program_size_limit() {
    let mut c = Chip8::new();
    c.initialize(0x200);
    assert_eq!(
        c.load_program(vec![1u8; 3585]),
        Err(Chip8Error::ProgramTooLarge { size: 3585 })
    );
    assert_eq!(c.memory_at(0x200), 0);
    assert_eq!(c.load_program(vec![1u8; 3584]), Ok(()));
    assert_eq!(c.memory_at(0x200), 1);
    assert_eq!(c.memory_at(0xFFF), 1);
}

#[test]
fn decode_instruction_table() {
    assert_eq!(decode(0x00E0), Some(Instruction::Cls));
    assert_eq!(decode(0x00EE), Some(Instruction::Ret));
    assert_eq!(decode(0x1ABC), Some(Instruction::Jump(0xABC)));
    assert_eq!(decode(0x8124), Some(Instruction::AddReg(1, 2)));
    assert_eq!(decode(0x812E), Some(Instruction::ShiftLeft(1)));
    assert_eq!(decode(0xD345), Some(Instruction::Draw(3, 4, 5)));
    assert_eq!(decode(0xF165), Some(Instruction::LoadRegs(1)));
    assert_eq!(decode(0xE29E), Some(Instruction::SkipKey(2)));
    assert_eq!(decode(0x5121), None);
    assert_eq!(decode(0x9121), None);
    assert_eq!(decode(0x0000), None);
}

#[test]
fn execute_opcode_directly() {
    let mut c = machine(&[]);
    assert_eq!(c.execute_opcode(0x6A42, 0), Ok(()));
    assert_eq!(c.register(0xA), 0x42);
    assert_eq!(
        c.execute_opcode(0xFFFF, 0),
        Err(Chip8Error::UnknownOpcode { opcode: 0xFFFF, pc: 0x200 })
    );
}
