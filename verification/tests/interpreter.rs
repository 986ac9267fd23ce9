use chipulator8::chip8::{Chip8, LoadError};

fn fresh() -> Chip8 {
    Chip8::new()
}

/// Writes a sequence of opcode bytes at the program entry point.
fn poke_program(chip: &mut Chip8, bytes: &[u8]) {
    for (j, b) in bytes.iter().enumerate() {
        chip.memory[0x200 + j] = *b;
    }
}

#[test]
fn new_machine_initial_state() {
    let chip = fresh();
    assert_eq!(chip.pc, 0x200);
    assert_eq!(chip.i, 0);
    assert_eq!(chip.sp, 0);
    assert_eq!(chip.delay_timer, 0);
    assert_eq!(chip.sound_timer, 0);
    assert!(!chip.draw_flag);
    assert!(chip.v.iter().all(|&r| r == 0));
    assert!(chip.stack.iter().all(|&s| s == 0));
    assert!(chip.gfx.iter().all(|&g| g == 0));
    assert!(chip.key.iter().all(|&k| !k));
    // The font table: glyph 0 starts with 0xF0, glyph F ends with 0x80,
    // and everything after the 80 font bytes is zero.
    assert_eq!(chip.memory[0], 0xF0);
    assert_eq!(chip.memory[79], 0x80);
    assert!(chip.memory[80..].iter().all(|&b| b == 0));
}

#[test]
fn font_glyph_a_is_addressable() {
    let mut chip = fresh();
    // FX29 with VX = 0xA points I at glyph A, five bytes at 10 * 5.
    chip.v[0] = 0xA;
    poke_program(&mut chip, &[0xF0, 0x29]);
    chip.emulate_cycle();
    assert_eq!(chip.i, 50);
    assert_eq!(
        &chip.memory[50..55],
        &[0xF0, 0x90, 0xF0, 0x90, 0x90],
        "glyph A bit pattern"
    );
}

#[test]
fn set_then_add_wraps_without_flag() {
    // 6XNN then 7X(255) wraps VX to (NN + 255) mod 256 and never touches VF.
    let mut chip = fresh();
    chip.v[0xF] = 0x5A;
    poke_program(&mut chip, &[0x63, 0x2A, 0x73, 0xFF]);
    chip.emulate_cycle();
    assert_eq!(chip.v[3], 0x2A);
    chip.emulate_cycle();
    assert_eq!(chip.v[3], ((0x2A + 255) % 256) as u8);
    assert_eq!(chip.v[0xF], 0x5A, "7-series add must not touch VF");
    assert_eq!(chip.pc, 0x204);
}

#[test]
fn add_reg_carry_wraps_and_sets_vf() {
    // 8XY4 on VX = 0xFF, VY = 0x01: VX wraps to 0x00 and VF = 1.
    let mut chip = fresh();
    poke_program(&mut chip, &[0x60, 0xFF, 0x61, 0x01, 0x80, 0x14]);
    chip.emulate_cycle();
    chip.emulate_cycle();
    chip.emulate_cycle();
    assert_eq!(chip.v[0], 0x00);
    assert_eq!(chip.v[0xF], 1);
}

#[test]
fn add_reg_no_carry_clears_vf() {
    let mut chip = fresh();
    chip.v[0xF] = 1;
    poke_program(&mut chip, &[0x60, 0x10, 0x61, 0x20, 0x80, 0x14]);
    chip.emulate_cycle();
    chip.emulate_cycle();
    chip.emulate_cycle();
    assert_eq!(chip.v[0], 0x30);
    assert_eq!(chip.v[0xF], 0);
}

#[test]
fn sub_reg_borrow_wraps_and_clears_vf() {
    // 8XY5 on VX = 0x01, VY = 0x02: borrow, VX wraps to 0xFF, VF = 0.
    let mut chip = fresh();
    chip.v[0xF] = 1;
    poke_program(&mut chip, &[0x60, 0x01, 0x61, 0x02, 0x80, 0x15]);
    chip.emulate_cycle();
    chip.emulate_cycle();
    chip.emulate_cycle();
    assert_eq!(chip.v[0], 0xFF);
    assert_eq!(chip.v[0xF], 0);
}

#[test]
fn sub_reg_no_borrow_sets_vf() {
    let mut chip = fresh();
    poke_program(&mut chip, &[0x60, 0x05, 0x61, 0x03, 0x80, 0x15]);
    chip.emulate_cycle();
    chip.emulate_cycle();
    chip.emulate_cycle();
    assert_eq!(chip.v[0], 0x02);
    assert_eq!(chip.v[0xF], 1);
}

#[test]
fn sub_from_both_orderings() {
    // 8XY7: VX = VY - VX; here 3 - 5 borrows.
    let mut chip = fresh();
    chip.v[0] = 5;
    chip.v[1] = 3;
    poke_program(&mut chip, &[0x80, 0x17]);
    chip.emulate_cycle();
    assert_eq!(chip.v[0], 0xFE);
    assert_eq!(chip.v[0xF], 0);
}

#[test]
fn shift_right_captures_low_bit() {
    let mut chip = fresh();
    chip.v[2] = 0b1001_0101;
    poke_program(&mut chip, &[0x82, 0x06]);
    chip.emulate_cycle();
    assert_eq!(chip.v[2], 0b0100_1010);
    assert_eq!(chip.v[0xF], 1);
}

#[test]
fn shift_left_captures_high_bit() {
    let mut chip = fresh();
    chip.v[2] = 0b1001_0101;
    poke_program(&mut chip, &[0x82, 0x0E]);
    chip.emulate_cycle();
    assert_eq!(chip.v[2], 0b0010_1010);
    assert_eq!(chip.v[0xF], 1);
}

#[test]
fn clear_screen_blanks_and_marks_redraw() {
    // 00E0 followed immediately by querying the framebuffer: all cells zero
    // and the redraw flag true.
    let mut chip = fresh();
    chip.gfx[0] = 1;
    chip.gfx[100] = 1;
    chip.gfx[2047] = 1;
    poke_program(&mut chip, &[0x00, 0xE0]);
    chip.emulate_cycle();
    assert!(chip.gfx.iter().all(|&g| g == 0));
    assert!(chip.draw_flag);
    assert_eq!(chip.pc, 0x202);
}

#[test]
fn draw_plots_sprite_and_marks_redraw() {
    let mut chip = fresh();
    chip.i = 0x300;
    chip.memory[0x300] = 0b1010_0000;
    chip.memory[0x301] = 0b0100_0000;
    chip.v[0] = 4;
    chip.v[1] = 5;
    poke_program(&mut chip, &[0xD0, 0x12]);
    chip.emulate_cycle();
    assert_eq!(chip.gfx[5 * 64 + 4], 1);
    assert_eq!(chip.gfx[5 * 64 + 5], 0);
    assert_eq!(chip.gfx[5 * 64 + 6], 1);
    assert_eq!(chip.gfx[6 * 64 + 5], 1);
    assert_eq!(chip.v[0xF], 0, "no collision on a blank screen");
    assert!(chip.draw_flag);
    assert_eq!(chip.pc, 0x202);
}

#[test]
fn draw_same_sprite_twice_cancels_and_collides() {
    // The collision law: the second identical draw empties the framebuffer
    // and reports VF = 1.
    let mut chip = fresh();
    chip.i = 0x300;
    chip.memory[0x300] = 0xFF;
    chip.memory[0x301] = 0x81;
    chip.v[0] = 10;
    chip.v[1] = 3;
    poke_program(&mut chip, &[0xD0, 0x12]);
    chip.emulate_cycle();
    assert!(chip.gfx.iter().any(|&g| g == 1));
    assert_eq!(chip.v[0xF], 0);
    chip.pc = 0x200;
    chip.emulate_cycle();
    assert!(chip.gfx.iter().all(|&g| g == 0));
    assert_eq!(chip.v[0xF], 1);
}

#[test]
fn draw_wraps_coordinates_per_pixel() {
    // A sprite at column 60, row 30 wraps columns past 63 to the left edge
    // and rows past 31 to the top.
    let mut chip = fresh();
    chip.i = 0x300;
    chip.memory[0x300] = 0xFF;
    chip.memory[0x301] = 0xFF;
    chip.v[0] = 60;
    chip.v[1] = 31;
    poke_program(&mut chip, &[0xD0, 0x12]);
    chip.emulate_cycle();
    for k in 0..8u16 {
        let col = ((60 + k) % 64) as usize;
        assert_eq!(chip.gfx[31 * 64 + col], 1, "row 31 col {col}");
        assert_eq!(chip.gfx[col], 1, "wrapped row 0 col {col}");
    }
}

#[test]
fn draw_zero_height_still_marks_redraw() {
    let mut chip = fresh();
    chip.v[0xF] = 1;
    poke_program(&mut chip, &[0xD0, 0x10]);
    chip.emulate_cycle();
    assert!(chip.gfx.iter().all(|&g| g == 0));
    assert_eq!(chip.v[0xF], 0, "zero-height draw still clears VF");
    assert!(chip.draw_flag);
    assert_eq!(chip.pc, 0x202);
}

#[test]
fn bcd_round_trip() {
    // FX33 on VX = 156 stores digits 1, 5, 6 at I, I+1, I+2.
    let mut chip = fresh();
    chip.v[7] = 156;
    chip.i = 0x400;
    poke_program(&mut chip, &[0xF7, 0x33]);
    chip.emulate_cycle();
    assert_eq!(chip.memory[0x400], 1);
    assert_eq!(chip.memory[0x401], 5);
    assert_eq!(chip.memory[0x402], 6);
}

#[test]
fn loader_rejects_oversized_image() {
    let mut chip = fresh();
    let image = vec![0xAB; 3585];
    assert_eq!(chip.load_application(&image), Err(LoadError::ImageTooLarge));
    // A refused load leaves memory untouched.
    assert!(chip.memory[0x200..].iter().all(|&b| b == 0));
}

#[test]
fn loader_accepts_maximal_image() {
    let mut chip = fresh();
    let mut image = vec![0xCD; 3584];
    image[0] = 0x11;
    image[3583] = 0x22;
    assert_eq!(chip.load_application(&image), Ok(()));
    assert_eq!(chip.memory[0x200], 0x11);
    assert_eq!(chip.memory[0xFFF], 0x22);
    assert_eq!(chip.pc, 0x200, "loading does not move the program counter");
}

#[test]
fn program_scenario_add_registers() {
    // Load V0 = 5, V1 = 3, V0 += V1: after three cycles V0 = 8, VF = 0,
    // pc = 0x206.
    let mut chip = fresh();
    let program = [0x60, 0x05, 0x61, 0x03, 0x80, 0x14, 0x00, 0x00];
    assert_eq!(chip.load_application(&program), Ok(()));
    chip.emulate_cycle();
    chip.emulate_cycle();
    chip.emulate_cycle();
    assert_eq!(chip.v[0], 8);
    assert_eq!(chip.v[0xF], 0);
    assert_eq!(chip.pc, 0x206);
}

#[test]
fn wait_key_stalls_then_stores_highest_pressed() {
    // FX0A: with all keys up the cycle stalls; pressing key 3 stores 3 in VX
    // and advances by 2.
    let mut chip = fresh();
    poke_program(&mut chip, &[0xF5, 0x0A]);
    for _ in 0..4 {
        chip.emulate_cycle();
        assert_eq!(chip.pc, 0x200);
    }
    chip.key[3] = true;
    chip.emulate_cycle();
    assert_eq!(chip.v[5], 3);
    assert_eq!(chip.pc, 0x202);
}

#[test]
fn wait_key_takes_highest_index() {
    let mut chip = fresh();
    chip.key[2] = true;
    chip.key[0xB] = true;
    poke_program(&mut chip, &[0xF0, 0x0A]);
    chip.emulate_cycle();
    assert_eq!(chip.v[0], 0xB);
}

#[test]
fn timers_decay_to_zero_and_stop() {
    // Delay timer 2, three cycles of harmless instructions: 1, 0, then
    // stays 0.
    let mut chip = fresh();
    chip.delay_timer = 2;
    poke_program(&mut chip, &[0x60, 0x00, 0x60, 0x00, 0x60, 0x00]);
    chip.emulate_cycle();
    assert_eq!(chip.delay_timer, 1);
    chip.emulate_cycle();
    assert_eq!(chip.delay_timer, 0);
    chip.emulate_cycle();
    assert_eq!(chip.delay_timer, 0, "timer floors at zero");
}

#[test]
fn sound_timer_decays_independently() {
    let mut chip = fresh();
    chip.delay_timer = 1;
    chip.sound_timer = 3;
    poke_program(&mut chip, &[0x60, 0x00]);
    chip.emulate_cycle();
    assert_eq!(chip.delay_timer, 0);
    assert_eq!(chip.sound_timer, 2);
}

#[test]
fn get_delay_reads_timer() {
    let mut chip = fresh();
    chip.delay_timer = 42;
    poke_program(&mut chip, &[0xF4, 0x07]);
    chip.emulate_cycle();
    assert_eq!(chip.v[4], 42);
    assert_eq!(chip.delay_timer, 41, "the tick still happens afterwards");
}

#[test]
fn set_timers_from_register() {
    let mut chip = fresh();
    chip.v[6] = 9;
    poke_program(&mut chip, &[0xF6, 0x15, 0xF6, 0x18]);
    chip.emulate_cycle();
    // FX15 sets the delay timer to 9; the end-of-cycle tick takes it to 8.
    assert_eq!(chip.delay_timer, 8);
    chip.emulate_cycle();
    assert_eq!(chip.sound_timer, 8);
}

#[test]
fn unknown_opcode_leaves_pc_but_ticks_timers() {
    let mut chip = fresh();
    chip.delay_timer = 5;
    poke_program(&mut chip, &[0x0F, 0x00]);
    chip.emulate_cycle();
    assert_eq!(chip.pc, 0x200, "unknown opcodes do not advance");
    assert_eq!(chip.delay_timer, 4, "timers tick regardless");
}

#[test]
fn skip_eq_imm_taken_and_not_taken() {
    let mut chip = fresh();
    chip.v[1] = 0x44;
    poke_program(&mut chip, &[0x31, 0x44]);
    chip.emulate_cycle();
    assert_eq!(chip.pc, 0x204);

    let mut chip = fresh();
    chip.v[1] = 0x45;
    poke_program(&mut chip, &[0x31, 0x44]);
    chip.emulate_cycle();
    assert_eq!(chip.pc, 0x202);
}

#[test]
fn skip_ne_imm_and_reg_comparisons() {
    let mut chip = fresh();
    chip.v[1] = 1;
    chip.v[2] = 1;
    poke_program(&mut chip, &[0x41, 0x01, 0x51, 0x20, 0x91, 0x20]);
    chip.emulate_cycle();
    assert_eq!(chip.pc, 0x202, "4XNN not taken on equal");
    chip.emulate_cycle();
    assert_eq!(chip.pc, 0x206, "5XY0 taken on equal");
    chip.v[2] = 2;
    chip.pc = 0x204;
    chip.emulate_cycle();
    assert_eq!(chip.pc, 0x208, "9XY0 taken on unequal");
}

#[test]
fn strict_decode_rejects_5xy_with_low_nibble() {
    // 5XY1 matches no defined opcode, so it must not advance the counter.
    let mut chip = fresh();
    poke_program(&mut chip, &[0x51, 0x21]);
    chip.emulate_cycle();
    assert_eq!(chip.pc, 0x200);
}

#[test]
fn jump_and_jump_plus_v0() {
    let mut chip = fresh();
    poke_program(&mut chip, &[0x13, 0x00]);
    chip.emulate_cycle();
    assert_eq!(chip.pc, 0x300);

    let mut chip = fresh();
    chip.v[0] = 0x10;
    poke_program(&mut chip, &[0xB3, 0x00]);
    chip.emulate_cycle();
    assert_eq!(chip.pc, 0x310);
}

#[test]
fn call_and_return_round_trip() {
    let mut chip = fresh();
    poke_program(&mut chip, &[0x23, 0x00]);
    chip.memory[0x300] = 0x00;
    chip.memory[0x301] = 0xEE;
    chip.emulate_cycle();
    assert_eq!(chip.pc, 0x300);
    assert_eq!(chip.sp, 1);
    assert_eq!(chip.stack[0], 0x200);
    chip.emulate_cycle();
    assert_eq!(chip.pc, 0x202, "return lands after the call");
    assert_eq!(chip.sp, 0);
}

#[test]
fn alu_bitwise_ops() {
    let mut chip = fresh();
    chip.v[0] = 0b1100;
    chip.v[1] = 0b1010;
    poke_program(&mut chip, &[0x80, 0x11]);
    chip.emulate_cycle();
    assert_eq!(chip.v[0], 0b1110);

    let mut chip = fresh();
    chip.v[0] = 0b1100;
    chip.v[1] = 0b1010;
    poke_program(&mut chip, &[0x80, 0x12]);
    chip.emulate_cycle();
    assert_eq!(chip.v[0], 0b1000);

    let mut chip = fresh();
    chip.v[0] = 0b1100;
    chip.v[1] = 0b1010;
    poke_program(&mut chip, &[0x80, 0x13]);
    chip.emulate_cycle();
    assert_eq!(chip.v[0], 0b0110);

    let mut chip = fresh();
    chip.v[1] = 0x77;
    poke_program(&mut chip, &[0x80, 0x10]);
    chip.emulate_cycle();
    assert_eq!(chip.v[0], 0x77);
}

#[test]
fn set_index_and_add_index_flag() {
    let mut chip = fresh();
    poke_program(&mut chip, &[0xA3, 0x00]);
    chip.emulate_cycle();
    assert_eq!(chip.i, 0x300);

    // FX1E with no 12-bit overflow clears VF.
    let mut chip = fresh();
    chip.i = 0xFFE;
    chip.v[0] = 1;
    chip.v[0xF] = 1;
    poke_program(&mut chip, &[0xF0, 0x1E]);
    chip.emulate_cycle();
    assert_eq!(chip.i, 0xFFF);
    assert_eq!(chip.v[0xF], 0);

    // FX1E past 0xFFF sets VF and keeps the full 16-bit sum.
    let mut chip = fresh();
    chip.i = 0xFFF;
    chip.v[0] = 2;
    poke_program(&mut chip, &[0xF0, 0x1E]);
    chip.emulate_cycle();
    assert_eq!(chip.i, 0x1001);
    assert_eq!(chip.v[0xF], 1);
}

#[test]
fn store_and_load_registers_round_trip() {
    let mut chip = fresh();
    for r in 0..6 {
        chip.v[r] = (10 + r) as u8;
    }
    chip.i = 0x500;
    poke_program(&mut chip, &[0xF5, 0x55]);
    chip.emulate_cycle();
    for r in 0..6 {
        assert_eq!(chip.memory[0x500 + r], (10 + r) as u8);
    }
    assert_eq!(chip.memory[0x506], 0, "FX55 stops after VX");
    assert_eq!(chip.i, 0x500, "I is not advanced");

    let mut other = fresh();
    other.i = 0x500;
    for r in 0..6 {
        other.memory[0x500 + r] = (10 + r) as u8;
    }
    other.v[7] = 0x99;
    poke_program(&mut other, &[0xF5, 0x65]);
    other.emulate_cycle();
    for r in 0..6 {
        assert_eq!(other.v[r], (10 + r) as u8);
    }
    assert_eq!(other.v[6], 0);
    assert_eq!(other.v[7], 0x99, "FX65 stops after VX");
}

#[test]
fn skip_key_instructions() {
    let mut chip = fresh();
    chip.v[0] = 7;
    chip.key[7] = true;
    poke_program(&mut chip, &[0xE0, 0x9E]);
    chip.emulate_cycle();
    assert_eq!(chip.pc, 0x204, "EX9E skips when pressed");

    let mut chip = fresh();
    chip.v[0] = 7;
    poke_program(&mut chip, &[0xE0, 0xA1]);
    chip.emulate_cycle();
    assert_eq!(chip.pc, 0x204, "EXA1 skips when not pressed");

    let mut chip = fresh();
    chip.v[0] = 7;
    chip.key[7] = true;
    poke_program(&mut chip, &[0xE0, 0xA1]);
    chip.emulate_cycle();
    assert_eq!(chip.pc, 0x202);
}

#[test]
fn random_masks_with_immediate() {
    // The cycle with an explicit byte is deterministic: CXNN stores
    // rnd & NN.
    let mut chip = fresh();
    poke_program(&mut chip, &[0xC2, 0x0F]);
    chip.cycle_with_random(0b1010_1010);
    assert_eq!(chip.v[2], 0b0000_1010);
    assert_eq!(chip.pc, 0x202);

    // With mask 0x00 every random byte gives zero.
    let mut chip = fresh();
    chip.v[2] = 0x77;
    poke_program(&mut chip, &[0xC2, 0x00]);
    chip.emulate_cycle();
    assert_eq!(chip.v[2], 0);
}

#[test]
fn redraw_flag_reset_each_cycle() {
    let mut chip = fresh();
    poke_program(&mut chip, &[0x00, 0xE0, 0x60, 0x00]);
    chip.emulate_cycle();
    assert!(chip.draw_flag);
    chip.emulate_cycle();
    assert!(!chip.draw_flag, "a cycle that draws nothing resets the flag");
}

#[test]
fn cycle_ok_guards_bad_states() {
    let chip = fresh();
    assert!(chip.cycle_ok_now());

    // A program counter at the very end of memory cannot fetch a word.
    let mut chip = fresh();
    chip.pc = 4095;
    assert!(!chip.cycle_ok_now());

    // A call with a full stack would overflow it.
    let mut chip = fresh();
    chip.sp = 16;
    poke_program(&mut chip, &[0x23, 0x00]);
    assert!(!chip.cycle_ok_now());

    // A return with an empty stack would underflow it.
    let mut chip = fresh();
    poke_program(&mut chip, &[0x00, 0xEE]);
    assert!(!chip.cycle_ok_now());

    // A sprite read past the end of memory.
    let mut chip = fresh();
    chip.i = 4090;
    poke_program(&mut chip, &[0xD0, 0x1F]);
    assert!(!chip.cycle_ok_now());
}
