use chipmunk::{Emulator, EmulatorError, HeadlessPlatform, Keyboard, Reg};

fn boot(rom: Vec<u8>) -> Emulator<HeadlessPlatform> {
    Emulator::new(rom, HeadlessPlatform::new(), false).unwrap()
}

fn boot_with(rom: Vec<u8>, platform: HeadlessPlatform) -> Emulator<HeadlessPlatform> {
    Emulator::new(rom, platform, false).unwrap()
}

fn run_cycles(em: &mut Emulator<HeadlessPlatform>, n: usize) {
    for _ in 0..n {
        em.cycle().unwrap();
    }
}

#[test]
fn construction_loads_font_and_rom() {
    let em = boot(vec![0x12, 0x00]);
    assert_eq!(em.registers.pc(), 0x200);
    assert_eq!(em.registers.get_i(), 0);
    assert_eq!(em.mem_byte(0x050), 0xF0);
    assert_eq!(em.mem_byte(0x09F), 0x80);
    assert_eq!(em.mem_byte(0x200), 0x12);
    assert_eq!(em.mem_byte(0x201), 0x00);
    assert_eq!(em.mem_byte(0x202), 0x00);
    assert_eq!(em.stack_len(), 0);
    assert!(!em.needs_redraw());
}

#[test]
fn construction_rejects_an_oversized_image() {
    assert!(Emulator::new(vec![0; 3584], HeadlessPlatform::new(), false).is_ok());
    match Emulator::new(vec![0; 3585], HeadlessPlatform::new(), false) {
        Err(EmulatorError::RomTooLarge) => {},
        other => panic!("expected a load failure, got {:?}", other.is_ok()),
    }
}

#[test]
fn add_with_carry_overflows_to_zero_and_sets_the_flag() {
    let mut em = boot(vec![0x60, 0xFF, 0x61, 0x01, 0x80, 0x14]);
    run_cycles(&mut em, 3);
    assert_eq!(em.registers.get(Reg::V0), 0x00);
    assert_eq!(em.registers.get(Reg::VF), 1);
}

#[test]
fn add_with_carry_without_overflow_clears_the_flag() {
    let mut em = boot(vec![0x60, 0x10, 0x61, 0x01, 0x80, 0x14]);
    run_cycles(&mut em, 3);
    assert_eq!(em.registers.get(Reg::V0), 0x11);
    assert_eq!(em.registers.get(Reg::VF), 0);
}

#[test]
fn subtract_with_borrow_wraps_and_clears_the_flag() {
    let mut em = boot(vec![0x60, 0x01, 0x61, 0x02, 0x80, 0x15]);
    run_cycles(&mut em, 3);
    assert_eq!(em.registers.get(Reg::V0), 0xFF);
    assert_eq!(em.registers.get(Reg::VF), 0);
}

#[test]
fn subtract_without_borrow_sets_the_flag() {
    let mut em = boot(vec![0x60, 0x05, 0x61, 0x02, 0x80, 0x15]);
    run_cycles(&mut em, 3);
    assert_eq!(em.registers.get(Reg::V0), 0x03);
    assert_eq!(em.registers.get(Reg::VF), 1);
}

#[test]
fn call_then_return_balances_the_stack() {
    let mut em = boot(vec![0x22, 0x04, 0x00, 0x00, 0x00, 0xEE]);
    em.cycle().unwrap();
    assert_eq!(em.registers.pc(), 0x204);
    assert_eq!(em.stack_len(), 1);
    em.cycle().unwrap();
    assert_eq!(em.registers.pc(), 0x202);
    assert_eq!(em.stack_len(), 0);
}

#[test]
fn return_on_an_empty_stack_is_a_stack_underflow() {
    let mut em = boot(vec![0x00, 0xEE]);
    assert_eq!(em.cycle(), Err(EmulatorError::StackUnderflow));
}

#[test]
fn bcd_expansion_writes_digits_most_significant_first() {
    let mut em = boot(vec![0x60, 0x68, 0xA3, 0x00, 0xF0, 0x33]);
    run_cycles(&mut em, 3);
    assert_eq!(em.mem_byte(0x300), 1);
    assert_eq!(em.mem_byte(0x301), 0);
    assert_eq!(em.mem_byte(0x302), 4);
}

#[test]
fn bcd_expansion_of_250() {
    let mut em = boot(vec![0x60, 0xFA, 0xA3, 0x00, 0xF0, 0x33]);
    run_cycles(&mut em, 3);
    assert_eq!(em.mem_byte(0x300), 2);
    assert_eq!(em.mem_byte(0x301), 5);
    assert_eq!(em.mem_byte(0x302), 0);
}

#[test]
fn bcd_expansion_near_the_top_of_memory_is_out_of_range() {
    let mut em = boot(vec![0x60, 0x68, 0xAF, 0xFF, 0xF0, 0x33]);
    run_cycles(&mut em, 2);
    assert_eq!(em.cycle(), Err(EmulatorError::AddressOutOfRange(0xFFF)));
}

#[test]
fn font_lookup_points_at_the_glyph() {
    let mut em = boot(vec![0x60, 0x0A, 0xF0, 0x29]);
    run_cycles(&mut em, 2);
    assert_eq!(em.registers.get_i(), 0x050 + 0x0A * 5);
}

#[test]
fn drawing_twice_clears_the_sprite_and_reports_a_collision() {
    let mut em = boot(vec![
        0x60, 0x05, 0x61, 0x03, 0xA2, 0x0A, 0xD0, 0x11, 0xD0, 0x11, 0xFF, 0x00,
    ]);
    run_cycles(&mut em, 4);
    assert_eq!(em.registers.get(Reg::VF), 0);
    for col in 0..8 {
        assert!(em.pixel(5 + col, 3));
    }
    assert!(em.needs_redraw());
    em.cycle().unwrap();
    assert_eq!(em.registers.get(Reg::VF), 1);
    for col in 0..8 {
        assert!(!em.pixel(5 + col, 3));
    }
}

#[test]
fn drawing_wraps_around_both_edges() {
    let mut em = boot(vec![
        0x60, 0x3E, 0x61, 0x1F, 0xA2, 0x08, 0xD0, 0x11, 0xFF, 0x00,
    ]);
    run_cycles(&mut em, 4);
    assert!(em.pixel(62, 31));
    assert!(em.pixel(63, 31));
    assert!(em.pixel(0, 31));
    assert!(em.pixel(5, 31));
    assert!(!em.pixel(6, 31));
    assert_eq!(em.registers.get(Reg::VF), 0);
}

#[test]
fn clear_screen_unsets_every_pixel_and_requests_a_redraw() {
    let mut em = boot(vec![
        0x60, 0x00, 0x61, 0x00, 0xA2, 0x0A, 0xD0, 0x11, 0x00, 0xE0, 0x80, 0x00,
    ]);
    run_cycles(&mut em, 4);
    assert!(em.pixel(0, 0));
    em.render_if_needed();
    assert!(!em.needs_redraw());
    em.cycle().unwrap();
    assert!(!em.pixel(0, 0));
    assert!(em.needs_redraw());
}

#[test]
fn equal_skip_advances_exactly_when_equal() {
    let mut taken = boot(vec![0x60, 0x07, 0x30, 0x07]);
    run_cycles(&mut taken, 2);
    assert_eq!(taken.registers.pc(), 0x206);

    let mut not_taken = boot(vec![0x60, 0x07, 0x30, 0x08]);
    run_cycles(&mut not_taken, 2);
    assert_eq!(not_taken.registers.pc(), 0x204);
}

#[test]
fn not_equal_skip_advances_exactly_when_different() {
    let mut taken = boot(vec![0x60, 0x07, 0x40, 0x08]);
    run_cycles(&mut taken, 2);
    assert_eq!(taken.registers.pc(), 0x206);

    let mut not_taken = boot(vec![0x60, 0x07, 0x40, 0x07]);
    run_cycles(&mut not_taken, 2);
    assert_eq!(not_taken.registers.pc(), 0x204);
}

#[test]
fn register_skips_compare_the_two_registers() {
    let mut eq_taken = boot(vec![0x60, 0x07, 0x61, 0x07, 0x50, 0x10]);
    run_cycles(&mut eq_taken, 3);
    assert_eq!(eq_taken.registers.pc(), 0x208);

    let mut ne_taken = boot(vec![0x60, 0x07, 0x61, 0x08, 0x90, 0x10]);
    run_cycles(&mut ne_taken, 3);
    assert_eq!(ne_taken.registers.pc(), 0x208);

    let mut ne_not_taken = boot(vec![0x60, 0x07, 0x61, 0x07, 0x90, 0x10]);
    run_cycles(&mut ne_not_taken, 3);
    assert_eq!(ne_not_taken.registers.pc(), 0x206);
}

#[test]
fn shifts_report_the_shifted_out_bit() {
    let mut right = boot(vec![0x60, 0x81, 0x80, 0x16]);
    run_cycles(&mut right, 2);
    assert_eq!(right.registers.get(Reg::V0), 0x40);
    assert_eq!(right.registers.get(Reg::VF), 0x01);

    let mut left = boot(vec![0x60, 0x81, 0x80, 0x1E]);
    run_cycles(&mut left, 2);
    assert_eq!(left.registers.get(Reg::V0), 0x02);
    assert_eq!(left.registers.get(Reg::VF), 0x01);

    let mut left_clear = boot(vec![0x60, 0x41, 0x80, 0x1E]);
    run_cycles(&mut left_clear, 2);
    assert_eq!(left_clear.registers.get(Reg::V0), 0x82);
    assert_eq!(left_clear.registers.get(Reg::VF), 0x00);
}

#[test]
fn reverse_subtract_uses_y_minus_x() {
    let mut no_borrow = boot(vec![0x60, 0x02, 0x61, 0x05, 0x80, 0x17]);
    run_cycles(&mut no_borrow, 3);
    assert_eq!(no_borrow.registers.get(Reg::V0), 0x03);
    assert_eq!(no_borrow.registers.get(Reg::VF), 1);

    let mut borrow = boot(vec![0x60, 0x05, 0x61, 0x02, 0x80, 0x17]);
    run_cycles(&mut borrow, 3);
    assert_eq!(borrow.registers.get(Reg::V0), 0xFD);
    assert_eq!(borrow.registers.get(Reg::VF), 0);
}

#[test]
fn bitwise_ops_combine_registers() {
    let mut em = boot(vec![
        0x60, 0x0F, 0x61, 0x33, 0x80, 0x11, 0x62, 0x0F, 0x63, 0x33, 0x82, 0x32, 0x64, 0x0F,
        0x65, 0x33, 0x84, 0x53,
    ]);
    run_cycles(&mut em, 9);
    assert_eq!(em.registers.get(Reg::V0), 0x3F);
    assert_eq!(em.registers.get(Reg::V2), 0x03);
    assert_eq!(em.registers.get(Reg::V4), 0x3C);
}

#[test]
fn indexed_jump_adds_v0() {
    let mut em = boot(vec![0x60, 0x04, 0xB3, 0x00]);
    run_cycles(&mut em, 2);
    assert_eq!(em.registers.pc(), 0x304);
}

#[test]
fn add_to_index_register_wraps() {
    let mut em = boot(vec![0xA0, 0x10, 0x60, 0x05, 0xF0, 0x1E]);
    run_cycles(&mut em, 3);
    assert_eq!(em.registers.get_i(), 0x015);
}

#[test]
fn random_byte_is_masked_by_the_immediate() {
    let mut em = boot(vec![0xC0, 0x0F]);
    em.cycle().unwrap();
    assert_eq!(em.registers.get(Reg::V0) & 0xF0, 0);
}

#[test]
fn random_byte_under_an_empty_mask_is_zero() {
    let mut em = boot(vec![0x60, 0x55, 0xC0, 0x00]);
    run_cycles(&mut em, 2);
    assert_eq!(em.registers.get(Reg::V0), 0);
}

#[test]
fn timers_load_and_count_down() {
    let mut em = boot(vec![0x60, 0x03, 0xF0, 0x15, 0xF0, 0x18, 0xF1, 0x07]);
    run_cycles(&mut em, 4);
    assert_eq!(em.registers.get(Reg::DelayTimer), 3);
    assert_eq!(em.registers.get(Reg::SoundTimer), 3);
    assert_eq!(em.registers.get(Reg::V1), 3);
    em.check_delay();
    em.check_delay();
    em.check_delay();
    em.check_delay();
    assert_eq!(em.registers.get(Reg::DelayTimer), 0);
    em.check_sound();
    assert_eq!(em.registers.get(Reg::SoundTimer), 2);
}

#[test]
fn block_store_and_load_move_registers_through_memory() {
    let mut em = boot(vec![
        0x60, 0x11, 0x61, 0x22, 0x62, 0x33, 0xA3, 0x00, 0xF2, 0x55,
    ]);
    run_cycles(&mut em, 5);
    assert_eq!(em.mem_byte(0x300), 0x11);
    assert_eq!(em.mem_byte(0x301), 0x22);
    assert_eq!(em.mem_byte(0x302), 0x33);
    assert_eq!(em.registers.get_i(), 0x303);

    let mut em2 = boot(vec![0xA2, 0x04, 0xF1, 0x65, 0x44, 0x55]);
    run_cycles(&mut em2, 2);
    assert_eq!(em2.registers.get(Reg::V0), 0x44);
    assert_eq!(em2.registers.get(Reg::V1), 0x55);
    assert_eq!(em2.registers.get_i(), 0x206);
}

#[test]
fn block_transfers_can_leave_the_index_register_alone() {
    let mut em = boot(vec![
        0x60, 0x11, 0x61, 0x22, 0x62, 0x33, 0xA3, 0x00, 0xF2, 0x55,
    ]);
    em.set_advance_index_on_block(false);
    run_cycles(&mut em, 5);
    assert_eq!(em.mem_byte(0x300), 0x11);
    assert_eq!(em.registers.get_i(), 0x300);
}

#[test]
fn block_store_near_the_top_of_memory_is_out_of_range() {
    let mut em = boot(vec![0xAF, 0xFF, 0xF1, 0x55]);
    em.cycle().unwrap();
    assert_eq!(em.cycle(), Err(EmulatorError::AddressOutOfRange(0xFFF)));
}

#[test]
fn key_skips_follow_the_key_state() {
    let mut platform = HeadlessPlatform::new();
    platform.hold_key(0x4);
    let mut down = boot_with(vec![0x60, 0x04, 0xE0, 0x9E], platform);
    run_cycles(&mut down, 2);
    assert_eq!(down.registers.pc(), 0x206);

    let mut up = boot(vec![0x60, 0x04, 0xE0, 0x9E]);
    run_cycles(&mut up, 2);
    assert_eq!(up.registers.pc(), 0x204);

    let mut up_skip = boot(vec![0x60, 0x04, 0xE0, 0xA1]);
    run_cycles(&mut up_skip, 2);
    assert_eq!(up_skip.registers.pc(), 0x206);

    let mut held_no_skip = HeadlessPlatform::new();
    held_no_skip.hold_key(0x4);
    let mut down_no_skip = boot_with(vec![0x60, 0x04, 0xE0, 0xA1], held_no_skip);
    run_cycles(&mut down_no_skip, 2);
    assert_eq!(down_no_skip.registers.pc(), 0x204);
}

#[test]
fn key_wait_stores_the_next_key() {
    let mut platform = HeadlessPlatform::new();
    platform.queue_key(0x7);
    let mut em = boot_with(vec![0xF0, 0x0A], platform);
    em.cycle().unwrap();
    assert_eq!(em.registers.get(Reg::V0), 0x7);
}

#[test]
fn key_wait_reports_a_quit_as_an_exit() {
    let mut em = boot(vec![0xF0, 0x0A]);
    assert_eq!(em.cycle(), Err(EmulatorError::Exit));
    assert_eq!(em.registers.get(Reg::V0), 0);
}

#[test]
fn continue_key_decision_accepts_exactly_f() {
    assert!(chipmunk::is_continue_key(0xF));
    for key in 0..0xFu8 {
        assert!(!chipmunk::is_continue_key(key));
    }
    assert!(!chipmunk::is_continue_key(0x10));
    assert!(!chipmunk::is_continue_key(0xFF));
}

#[test]
fn key_skip_decision_follows_the_pressed_state() {
    let mut em = boot(vec![0x00, 0xE0]);
    em.apply_key_skip(true, true);
    assert_eq!(em.registers.pc(), 0x202);
    em.apply_key_skip(false, true);
    assert_eq!(em.registers.pc(), 0x202);
    em.apply_key_skip(false, false);
    assert_eq!(em.registers.pc(), 0x204);
    em.apply_key_skip(true, false);
    assert_eq!(em.registers.pc(), 0x204);
}

#[test]
fn random_store_masks_the_given_byte() {
    let mut em = boot(vec![0x00, 0xE0]);
    em.apply_random(Reg::V3, 0x0F, 0xAB);
    assert_eq!(em.registers.get(Reg::V3), 0x0B);
    em.apply_random(Reg::V3, 0x00, 0xFF);
    assert_eq!(em.registers.get(Reg::V3), 0x00);
    em.apply_random(Reg::V3, 0xFF, 0x5C);
    assert_eq!(em.registers.get(Reg::V3), 0x5C);
}

#[test]
fn debug_wait_recognizes_the_continue_key() {
    let mut platform = HeadlessPlatform::new();
    platform.queue_key(0x1);
    platform.queue_key(0xF);
    let mut em = Emulator::new(vec![0x00, 0xE0], platform, true).unwrap();
    assert!(em.debug_enabled());
    assert_eq!(em.debug_wait_step(), Ok(false));
    assert_eq!(em.debug_wait_step(), Ok(true));
    assert_eq!(em.debug_wait_step(), Err(EmulatorError::Exit));
}

#[test]
fn running_off_the_end_of_memory_is_out_of_range() {
    let mut em = boot(vec![0x1F, 0xFF]);
    em.cycle().unwrap();
    assert_eq!(em.cycle(), Err(EmulatorError::AddressOutOfRange(0xFFF)));
}

#[test]
fn an_unrecognized_word_fails_the_cycle() {
    let mut em = boot(vec![0x00, 0x00]);
    assert_eq!(em.cycle(), Err(EmulatorError::UnknownOpCode(0x0000)));
    assert_eq!(em.registers.pc(), 0x202);
}

#[test]
fn keyboard_tracks_presses_and_releases() {
    let mut kb = Keyboard::new();
    assert!(!kb.is_pressed(&0x4));
    kb.press(0x4);
    assert!(kb.is_pressed(&0x4));
    assert!(!kb.is_pressed(&0x5));
    kb.release(0x4);
    assert!(!kb.is_pressed(&0x4));
    assert!(!kb.escape_is_pressed());
    kb.press(0xFF);
    assert!(kb.escape_is_pressed());
}

#[test]
fn quit_and_pace_do_not_touch_the_machine() {
    let mut platform = HeadlessPlatform::new();
    platform.request_quit();
    let mut em = boot_with(vec![0x00, 0xE0], platform);
    em.scan_input();
    em.pace();
    em.silence();
    assert!(em.quit_requested());
    assert_eq!(em.registers.pc(), 0x200);
}
