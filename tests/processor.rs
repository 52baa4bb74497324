use tomo::chip8::machine::Fault;
use tomo::chip8::processor::{Key, Processor, Register};
use tomo::chip8::{DISPLAY_HEIGHT, DISPLAY_WIDTH, OPCODE_SIZE};

const START_PC: u16 = 0xF00;
const NEXT_PC: u16 = START_PC + OPCODE_SIZE as u16;
const SKIPPED_PC: u16 = START_PC + (2 * OPCODE_SIZE as u16);

fn build_processor() -> Processor {
    let mut processor = Processor::new();
    processor.pc = START_PC;
    processor.test_set_registers(0, 0);
    processor.test_set_registers(1, 0);
    processor.test_set_registers(2, 1);
    processor.test_set_registers(3, 1);
    processor.test_set_registers(4, 2);
    processor.test_set_registers(5, 2);
    processor.test_set_registers(6, 3);
    processor.test_set_registers(7, 3);
    processor.test_set_registers(8, 4);
    processor.test_set_registers(9, 4);
    processor.test_set_registers(10, 5);
    processor.test_set_registers(11, 5);
    processor.test_set_registers(12, 6);
    processor.test_set_registers(13, 6);
    processor.test_set_registers(14, 7);
    processor.test_set_registers(15, 7);
    processor
}

#[test]
fn test_initial_state() {
    let processor = Processor::new();
    assert_eq!(processor.pc, 0x200);
    assert_eq!(processor.sp, 0);
}

#[test]
fn test_load_data() {
    let mut processor = build_processor();
    processor.load(vec![1, 2, 3]);
    assert_eq!(processor.test_get_ram(0x200), 1);
    assert_eq!(processor.test_get_ram(0x201), 2);
    assert_eq!(processor.test_get_ram(0x202), 3);
}

// CLS
#[test]
fn test_op_00e0() {
    let mut processor = build_processor();
    processor.execute(0x00e0);

    for y in 0..DISPLAY_HEIGHT {
        for x in 0..DISPLAY_WIDTH {
            assert_eq!(processor.display.get_pixel(y, x), false);
        }
    }
    assert_eq!(processor.pc, NEXT_PC);
}

// RET
#[test]
fn test_op_00ee() {
    let mut processor = build_processor();
    processor.sp = 5;
    processor.test_set_stack(4, 0x6666);
    processor.execute(0x00ee);
    assert_eq!(processor.sp, 4);
    assert_eq!(processor.pc, 0x6666);
}

// JP
#[test]
fn test_op_1nnn() {
    let mut processor = build_processor();
    processor.execute(0x1666);
    assert_eq!(processor.pc, 0x0666);
}

// CALL
#[test]
fn test_op_2nnn() {
    let mut processor = build_processor();
    processor.execute(0x2666);
    assert_eq!(processor.pc, 0x0666);
    assert_eq!(processor.sp, 1);
    assert_eq!(processor.test_get_stack(0), NEXT_PC);
}

// SE VX, byte
#[test]
fn test_op_3xkk() {
    let mut processor = build_processor();
    processor.execute(0x3201);
    assert_eq!(processor.pc, SKIPPED_PC);
    let mut processor = build_processor();
    processor.execute(0x3200);
    assert_eq!(processor.pc, NEXT_PC);
}

// SNE VX, byte
#[test]
fn test_op_4xkk() {
    let mut processor = build_processor();
    processor.execute(0x4200);
    assert_eq!(processor.pc, SKIPPED_PC);
    let mut processor = build_processor();
    processor.execute(0x4201);
    assert_eq!(processor.pc, NEXT_PC);
}

// SE VX, VY
#[test]
fn test_op_5xy0() {
    let mut processor = build_processor();
    processor.execute(0x5540);
    assert_eq!(processor.pc, SKIPPED_PC);
    let mut processor = build_processor();
    processor.execute(0x5500);
    assert_eq!(processor.pc, NEXT_PC);
}

// LD Vx, byte
#[test]
fn test_op_6xkk() {
    let mut processor = build_processor();
    processor.execute(0x65ff);
    assert_eq!(processor.test_get_registers(5), 0xff);
    assert_eq!(processor.pc, NEXT_PC);
}

// ADD Vx, byte
#[test]
fn test_op_7xkk() {
    let mut processor = build_processor();
    processor.execute(0x75f0);
    assert_eq!(processor.test_get_registers(5), 0xf2);
    assert_eq!(processor.pc, NEXT_PC);
}

// LD Vx, Vy
#[test]
fn test_op_8xy0() {
    let mut processor = build_processor();
    processor.execute(0x8050);
    assert_eq!(processor.test_get_registers(0), 0x02);
    assert_eq!(processor.pc, NEXT_PC);
}

fn check_math(v1: u8, v2: u8, op: u16, result: u8, vf: u8) {
    let mut processor = build_processor();
    processor.test_set_registers(0, v1);
    processor.test_set_registers(1, v2);
    processor.test_set_registers(Register::VF.index(), 0);
    processor.execute(0x8010 + op);
    assert_eq!(processor.test_get_registers(0), result);
    assert_eq!(processor.test_get_registers(Register::VF.index()), vf);
    assert_eq!(processor.pc, NEXT_PC);
}

// OR Vx, Vy
#[test]
fn test_op_8xy1() {
    check_math(0x0F, 0xF0, 1, 0xFF, 0);
}

// AND Vx, Vy
#[test]
fn test_op_8xy2() {
    check_math(0x0F, 0xFF, 2, 0x0F, 0);
}

// XOR Vx, Vy
#[test]
fn test_op_8xy3() {
    check_math(0x0F, 0xFF, 3, 0xF0, 0);
}

// ADD Vx, Vy
#[test]
fn test_op_8xy4() {
    check_math(0x0F, 0x0F, 4, 0x1E, 0);
    check_math(0xFF, 0xFF, 4, 0xFE, 1);
}

// SUB Vx, Vy
#[test]
fn test_op_8xy5() {
    check_math(0x0F, 0x01, 5, 0x0E, 1);
    check_math(0x0F, 0xFF, 5, 0x10, 0);
}

// SHR Vx
#[test]
fn test_op_8x06() {
    check_math(0x04, 0, 6, 0x02, 0);
    check_math(0x05, 0, 6, 0x02, 1);
}

// SUBN Vx, Vy
#[test]
fn test_op_8xy7() {
    check_math(0x01, 0x0F, 7, 0x0E, 1);
    check_math(0xFF, 0x0F, 7, 0x10, 0);
}

// SHL Vx
#[test]
fn test_op_8x0e() {
    check_math(0b11000000, 0, 0x0e, 0b10000000, 1);
    check_math(0b00000111, 0, 0x0e, 0b00001110, 0);
}

// SNE VX, VY
#[test]
fn test_op_9xy0() {
    let mut processor = build_processor();
    processor.execute(0x90e0);
    assert_eq!(processor.pc, SKIPPED_PC);
    let mut processor = build_processor();
    processor.execute(0x9010);
    assert_eq!(processor.pc, NEXT_PC);
}

// LD I, addr
#[test]
fn test_op_annn() {
    let mut processor = build_processor();
    processor.execute(0xa123);
    assert_eq!(processor.i_reg, 0x123);
}

// JP V0, addr
#[test]
fn test_op_bnnn() {
    let mut processor = build_processor();
    processor.test_set_registers(0, 3);
    processor.execute(0xb123);
    assert_eq!(processor.pc, 0x126);
}

// RND Vx, byte
#[test]
fn test_op_cxkk() {
    let mut processor = build_processor();
    processor.execute(0xc000);
    assert_eq!(processor.test_get_registers(0), 0);
    processor.execute(0xc00f);
    assert_eq!(processor.test_get_registers(0) & 0xf0, 0);
}

// DRW Vx, Vy, nibble
#[test]
fn test_op_dxyn() {
    let mut processor = build_processor();
    processor.i_reg = 0;
    processor.test_set_ram(0, 0b11111111);
    processor.test_set_ram(1, 0b00000000);

    processor.display.set_pixel(0, 0, true);
    processor.display.set_pixel(0, 1, false);
    processor.display.set_pixel(1, 0, true);
    processor.display.set_pixel(1, 1, false);

    processor.test_set_registers(0, 0);
    processor.execute(0xd002);

    assert_eq!(processor.display.get_pixel(0, 0), false);
    assert_eq!(processor.display.get_pixel(0, 1), true);
    assert_eq!(processor.display.get_pixel(1, 0), true);
    assert_eq!(processor.display.get_pixel(1, 1), false);
    assert_eq!(processor.test_get_registers(Register::VF.index()), 1);
    assert_eq!(processor.pc, NEXT_PC);
}

#[test]
fn test_op_dxyn_wrap_horizontal() {
    let mut processor = build_processor();

    let x = DISPLAY_WIDTH - 4;

    processor.i_reg = 0;
    processor.test_set_ram(0, 0b11111111);
    processor.test_set_registers(0, x as u8);
    processor.test_set_registers(1, 0);

    processor.execute(0xd011);

    assert_eq!(processor.display.get_pixel(0, x - 1), false);
    assert_eq!(processor.display.get_pixel(0, x), true);
    assert_eq!(processor.display.get_pixel(0, x + 1), true);
    assert_eq!(processor.display.get_pixel(0, x + 2), true);
    assert_eq!(processor.display.get_pixel(0, x + 3), true);
    assert_eq!(processor.display.get_pixel(0, 0), true);
    assert_eq!(processor.display.get_pixel(0, 1), true);
    assert_eq!(processor.display.get_pixel(0, 2), true);
    assert_eq!(processor.display.get_pixel(0, 3), true);
    assert_eq!(processor.display.get_pixel(0, 4), false);

    assert_eq!(processor.test_get_registers(Register::VF.index()), 0);
}

#[test]
fn test_op_dxyn_wrap_vertical() {
    let mut processor = build_processor();
    let y = DISPLAY_HEIGHT - 1;

    processor.i_reg = 0;
    processor.test_set_ram(0, 0b11111111);
    processor.test_set_ram(1, 0b11111111);

    processor.test_set_registers(0, 0);
    processor.test_set_registers(1, y as u8);

    processor.execute(0xd012);

    assert_eq!(processor.display.get_pixel(y, 0), true);
    assert_eq!(processor.display.get_pixel(0, 0), true);

    assert_eq!(processor.test_get_registers(Register::VF.index()), 0);
}

// SKP Vx
#[test]
fn test_op_ex9e() {
    let mut processor = build_processor();
    processor.key_press(Key::K0);
    processor.test_set_registers(5, 9);
    processor.execute(0xe59e);
    assert_eq!(processor.pc, SKIPPED_PC);

    let mut processor = build_processor();
    processor.test_set_registers(5, 9);
    processor.execute(0xe59e);
    assert_eq!(processor.pc, NEXT_PC);
}

// LD Vx, DT
#[test]
fn test_op_fx07() {
    let mut processor = build_processor();
    processor.test_set_registers(Register::DT.index(), 20);
    processor.execute(0xf507);
    assert_eq!(processor.test_get_registers(5), 20);
    assert_eq!(processor.pc, NEXT_PC);
}

// LD DT, Vx
#[test]
fn test_op_fx15() {
    let mut processor = build_processor();
    processor.test_set_registers(5, 9);
    processor.execute(0xf515);
    assert_eq!(processor.test_get_registers(Register::DT.index()), 9);
    assert_eq!(processor.pc, NEXT_PC);
}

// LD ST, Vx
#[test]
fn test_op_fx18() {
    let mut processor = build_processor();
    processor.test_set_registers(5, 9);
    processor.execute(0xf518);
    assert_eq!(processor.test_get_registers(Register::ST.index()), 9);
    assert_eq!(processor.pc, NEXT_PC);
}

// ADD I, Vx
#[test]
fn test_op_fx1e() {
    let mut processor = build_processor();
    processor.test_set_registers(5, 9);
    processor.i_reg = 9;
    processor.execute(0xf51e);
    assert_eq!(processor.i_reg, 18);
    assert_eq!(processor.pc, NEXT_PC);
}

// LD F, Vx
#[test]
fn test_op_fx29() {
    let mut processor = build_processor();
    processor.test_set_registers(5, 9);
    processor.execute(0xf529);
    assert_eq!(processor.i_reg, 5 * 9);
    assert_eq!(processor.pc, NEXT_PC);
}

// LD B, Vx
#[test]
fn test_op_fx33() {
    let mut processor = build_processor();
    processor.test_set_registers(5, 123);
    processor.i_reg = 1000;
    processor.execute(0xf533);
    assert_eq!(processor.test_get_ram(1000), 1);
    assert_eq!(processor.test_get_ram(1001), 2);
    assert_eq!(processor.test_get_ram(1002), 3);
    assert_eq!(processor.pc, NEXT_PC);
}

// LD [I], Vx
#[test]
fn test_op_fx55() {
    let mut processor = build_processor();
    processor.i_reg = 1000;
    processor.execute(0xff55);
    for i in 0..16 {
        assert_eq!(processor.test_get_ram(1000 + i as usize), processor.test_get_registers(i));
    }
    assert_eq!(processor.pc, NEXT_PC);
}

// LD Vx, [I]
#[test]
fn test_op_fx65() {
    let mut processor = build_processor();
    for i in 0..16 as usize {
        processor.test_set_ram(1000 + i, i as u8);
    }
    processor.i_reg = 1000;
    processor.execute(0xff65);

    for i in 0..16 as usize {
        assert_eq!(processor.test_get_registers(i), processor.test_get_ram(1000 + i as usize));
    }
    assert_eq!(processor.pc, NEXT_PC);
}

#[test]
fn test_timers() {
    let mut processor = build_processor();
    processor.test_set_registers(Register::DT.index(), 200);
    processor.test_set_registers(Register::ST.index(), 100);
    processor.tick();
    assert_eq!(processor.test_get_registers(Register::DT.index()), 199);
    assert_eq!(processor.test_get_registers(Register::ST.index()), 99);
}

#[test]
fn test_fetch() {
    let mut emu = Processor::new();
    emu.test_set_ram(0x200, 0xAB);
    emu.test_set_ram(0x201, 0xCD);
    let opcode = emu.fetch();
    assert_eq!(opcode, 0xABCD);
    assert_eq!(emu.pc, 0x200);
}

#[test]
fn font_is_loaded_at_start_of_memory() {
    let mut processor = Processor::new();
    assert_eq!(processor.test_get_ram(0), 0xF0);
    assert_eq!(processor.test_get_ram(5), 0x20);
    assert_eq!(processor.test_get_ram(79), 0x80);
    assert_eq!(processor.test_get_ram(80), 0);
}

#[test]
fn load_places_bytes_at_program_start_and_reports_count() {
    let mut processor = Processor::new();
    let n = processor.load(vec![1, 2, 3]);
    assert_eq!(n, 3);
    assert_eq!(processor.pc, 0x200);
    assert_eq!(processor.test_get_ram(0x1FF), 0);
    assert_eq!(processor.test_get_ram(0x200), 1);
    assert_eq!(processor.test_get_ram(0x201), 2);
    assert_eq!(processor.test_get_ram(0x202), 3);
    assert_eq!(processor.test_get_ram(0x203), 0);
}

#[test]
fn load_of_the_largest_program_fills_memory() {
    let mut processor = Processor::new();
    let n = processor.load(vec![7; 4096 - 0x200]);
    assert_eq!(n, 4096 - 0x200);
    assert_eq!(processor.test_get_ram(4095), 7);
}

#[test]
fn reset_clears_state_and_keeps_font() {
    let mut processor = build_processor();
    processor.sp = 3;
    processor.test_set_stack(1, 0x345);
    processor.test_set_ram(0x300, 9);
    processor.display.set_pixel(4, 4, true);
    processor.reset();
    assert_eq!(processor.pc, 0x200);
    assert_eq!(processor.sp, 0);
    assert_eq!(processor.test_get_stack(1), 0);
    assert_eq!(processor.test_get_ram(0x300), 0);
    assert_eq!(processor.test_get_ram(0), 0xF0);
    assert_eq!(processor.test_get_registers(14), 0);
    assert_eq!(processor.display.get_pixel(4, 4), false);
}

#[test]
fn add_carry_contract() {
    check_math(0xFF, 0xFF, 4, 0xFE, 1);
    check_math(0x0F, 0x0F, 4, 0x1E, 0);
    check_math(0x80, 0x80, 4, 0x00, 1);
}

#[test]
fn subtract_borrow_contract() {
    // SUBN with vx = 2, vy = 4
    check_math(0x02, 0x04, 7, 0x02, 1);
    // SUB
    check_math(0x0F, 0x01, 5, 0x0E, 1);
    // equal operands: no borrow
    check_math(0x05, 0x05, 5, 0x00, 1);
    check_math(0x05, 0x05, 7, 0x00, 1);
}

#[test]
fn flag_register_as_destination_holds_the_flag() {
    let mut processor = build_processor();
    processor.test_set_registers(15, 0xFF);
    processor.test_set_registers(1, 0x02);
    processor.execute(0x8F14);
    assert_eq!(processor.test_get_registers(15), 1);
}

#[test]
fn add_byte_wraps_without_flag() {
    let mut processor = build_processor();
    processor.test_set_registers(5, 0xF0);
    processor.test_set_registers(15, 7);
    processor.execute(0x7520);
    assert_eq!(processor.test_get_registers(5), 0x10);
    assert_eq!(processor.test_get_registers(15), 7);
}

#[test]
fn store_registers_is_inclusive_of_x() {
    let mut processor = build_processor();
    processor.i_reg = 1000;
    processor.execute(0xf255);
    assert_eq!(processor.test_get_ram(1000), 0);
    assert_eq!(processor.test_get_ram(1001), 0);
    assert_eq!(processor.test_get_ram(1002), 1);
    assert_eq!(processor.test_get_ram(1003), 0);
}

#[test]
fn load_registers_is_inclusive_of_x() {
    let mut processor = build_processor();
    processor.test_set_ram(1000, 0xAA);
    processor.test_set_ram(1001, 0xBB);
    processor.test_set_ram(1002, 0xCC);
    processor.i_reg = 1000;
    processor.execute(0xf165);
    assert_eq!(processor.test_get_registers(0), 0xAA);
    assert_eq!(processor.test_get_registers(1), 0xBB);
    assert_eq!(processor.test_get_registers(2), 1);
}

#[test]
fn skip_if_equal_registers_steps_two_or_one() {
    let mut processor = build_processor();
    processor.execute(0x5230);
    assert_eq!(processor.pc, SKIPPED_PC);
    let mut processor = build_processor();
    processor.execute(0x5240);
    assert_eq!(processor.pc, NEXT_PC);
}

#[test]
fn call_then_return_comes_back_after_the_call() {
    let mut processor = build_processor();
    processor.execute(0x2ABC);
    assert_eq!(processor.pc, 0xABC);
    assert_eq!(processor.sp, 1);
    let out = processor.execute(0x00EE);
    assert!(out.success);
    assert_eq!(processor.pc, NEXT_PC);
    assert_eq!(processor.sp, 0);
}

#[test]
fn wait_key_blocks_until_a_key_is_recorded() {
    let mut processor = build_processor();
    let out = processor.execute(0xF50A);
    assert!(out.success);
    assert_eq!(processor.pc, START_PC);
    assert_eq!(processor.test_get_registers(5), 2);

    processor.key_press(Key::KA);
    processor.execute(0xF50A);
    assert_eq!(processor.test_get_registers(5), 10);
    assert_eq!(processor.pc, NEXT_PC);
}

#[test]
fn key_up_clears_only_the_current_key() {
    let mut processor = build_processor();
    processor.key_press(Key::K1);
    processor.key_press(Key::K2);
    processor.key_up(Key::K1);
    assert_eq!(processor.current_key, Some(Key::K2));
    processor.key_up(Key::K2);
    assert_eq!(processor.current_key, None);
    processor.test_set_registers(3, 1);
    processor.execute(0xE3A1);
    assert_eq!(processor.pc, SKIPPED_PC);
}

#[test]
fn unknown_opcode_is_reported_and_skipped() {
    let mut processor = build_processor();
    let out = processor.execute(0x5001);
    assert!(!out.success);
    assert_eq!(out.opcode, 0x5001);
    assert_eq!(out.fault, Some(Fault::UnknownOpcode));
    assert_eq!(processor.pc, NEXT_PC);
    assert_eq!(processor.test_get_registers(0), 0);
}

#[test]
fn call_with_full_stack_overflows() {
    let mut processor = build_processor();
    processor.sp = 16;
    let out = processor.execute(0x2123);
    assert_eq!(out.fault, Some(Fault::StackOverflow));
    assert!(!out.success);
    assert_eq!(processor.pc, START_PC);
    assert_eq!(processor.sp, 16);
}

#[test]
fn return_with_empty_stack_underflows() {
    let mut processor = build_processor();
    let out = processor.execute(0x00EE);
    assert_eq!(out.fault, Some(Fault::StackUnderflow));
    assert_eq!(processor.pc, START_PC);
    assert_eq!(processor.sp, 0);
}

#[test]
fn decimal_digits_beyond_memory_fault() {
    let mut processor = build_processor();
    processor.i_reg = 4094;
    let out = processor.execute(0xF533);
    assert_eq!(out.fault, Some(Fault::MemoryOutOfRange));
    assert_eq!(processor.test_get_ram(4094), 0);
    assert_eq!(processor.pc, START_PC);
}

#[test]
fn index_overflow_faults() {
    let mut processor = build_processor();
    processor.i_reg = 0xFFFF;
    let out = processor.execute(0xF51E);
    assert_eq!(out.fault, Some(Fault::MemoryOutOfRange));
    assert_eq!(processor.i_reg, 0xFFFF);
}

#[test]
fn skip_on_missing_key_faults() {
    let mut processor = build_processor();
    processor.test_set_registers(5, 20);
    let out = processor.execute(0xE59E);
    assert_eq!(out.fault, Some(Fault::InvalidKey));
    assert_eq!(processor.pc, START_PC);
}

#[test]
fn tick_past_memory_faults() {
    let mut processor = build_processor();
    processor.pc = 4095;
    processor.test_set_registers(Register::DT.index(), 3);
    let out = processor.tick();
    assert_eq!(out.fault, Some(Fault::MemoryOutOfRange));
    assert_eq!(processor.pc, 4095);
    assert_eq!(processor.test_get_registers(Register::DT.index()), 2);
}

#[test]
fn tick_runs_the_instruction_at_pc() {
    let mut processor = Processor::new();
    processor.load(vec![0x60, 0x2A, 0x12, 0x00]);
    let out = processor.tick_with(0);
    assert!(out.success);
    assert_eq!(out.opcode, 0x602A);
    assert_eq!(processor.test_get_registers(0), 0x2A);
    assert_eq!(processor.pc, 0x202);
    processor.tick();
    assert_eq!(processor.pc, 0x200);
}

#[test]
fn timers_stop_at_zero_and_beep_while_sound_runs() {
    let mut processor = Processor::new();
    processor.test_set_registers(Register::ST.index(), 1);
    assert!(processor.should_beep());
    processor.tick();
    assert_eq!(processor.test_get_registers(Register::ST.index()), 0);
    assert_eq!(processor.test_get_registers(Register::DT.index()), 0);
    assert!(!processor.should_beep());
    processor.tick();
    assert_eq!(processor.test_get_registers(Register::ST.index()), 0);
}

#[test]
fn random_instruction_uses_the_given_byte() {
    let mut processor = build_processor();
    processor.execute_with(0xC30F, 0xAB);
    assert_eq!(processor.test_get_registers(3), 0x0B);
}

#[test]
fn random_bytes_vary_and_stay_below_255() {
    let mut processor = build_processor();
    let mut seen = std::collections::HashSet::new();
    for _ in 0..300 {
        processor.execute(0xC0FF);
        let v = processor.test_get_registers(0);
        assert!(v < 255);
        seen.insert(v);
    }
    assert!(seen.len() > 1);
}

#[test]
fn font_lookup_points_at_glyph() {
    let mut processor = build_processor();
    processor.test_set_registers(5, 0xF);
    processor.execute(0xF529);
    assert_eq!(processor.i_reg, 75);
    assert_eq!(processor.test_get_ram(75), 0xF0);
}

#[test]
fn draw_twice_restores_and_second_collides() {
    let mut processor = build_processor();
    processor.i_reg = 0x300;
    processor.test_set_ram(0x300, 0b1010_0000);
    processor.test_set_registers(0, 10);
    processor.test_set_registers(1, 5);
    processor.execute(0xD011);
    assert_eq!(processor.test_get_registers(15), 0);
    assert!(processor.display.get_pixel(5, 10));
    assert!(!processor.display.get_pixel(5, 11));
    assert!(processor.display.get_pixel(5, 12));
    processor.execute(0xD011);
    assert_eq!(processor.test_get_registers(15), 1);
    for y in 0..DISPLAY_HEIGHT {
        for x in 0..DISPLAY_WIDTH {
            assert!(!processor.display.get_pixel(y, x));
        }
    }
}

#[test]
fn draw_reports_the_cells_it_covers() {
    let mut processor = build_processor();
    processor.i_reg = 0x300;
    processor.test_set_ram(0x300, 0x80);
    processor.test_set_ram(0x301, 0x80);
    processor.test_set_registers(0, 63);
    processor.test_set_registers(1, 31);
    let out = processor.execute(0xD012);
    assert!(out.success);
    assert_eq!(out.edited_pixels.len(), 16);
    assert_eq!(out.edited_pixels[0], 31 * 64 + 63);
    assert_eq!(out.edited_pixels[1], 31 * 64);
    assert_eq!(out.edited_pixels[8], 63);
    assert_eq!(out.edited_pixels[9], 0);
    assert!(processor.display.get_pixel(31, 63));
    assert!(processor.display.get_pixel(0, 63));
}

#[test]
fn clear_reports_every_cell_and_other_instructions_none() {
    let mut processor = build_processor();
    let out = processor.execute(0x00E0);
    assert_eq!(out.edited_pixels.len(), DISPLAY_WIDTH * DISPLAY_HEIGHT);
    assert_eq!(out.edited_pixels[2047], 2047);
    let out = processor.execute(0x6001);
    assert!(out.edited_pixels.is_empty());
}

#[test]
fn add_index_sets_flag_only_past_0f00() {
    let mut processor = build_processor();
    processor.test_set_registers(5, 0x10);
    processor.i_reg = 0x0EF0;
    processor.execute(0xF51E);
    assert_eq!(processor.i_reg, 0x0F00);
    assert_eq!(processor.test_get_registers(15), 0);
    processor.execute(0xF51E);
    assert_eq!(processor.i_reg, 0x0F10);
    assert_eq!(processor.test_get_registers(15), 1);
}

#[test]
fn processor_accessors_match_fields() {
    let mut processor = Processor::new();
    processor.set_pc(0x300);
    processor.set_i_reg(0x42);
    processor.set_sp(3);
    processor.set_current_key(Some(Key::KC));
    assert_eq!(processor.pc(), 0x300);
    assert_eq!(processor.pc, 0x300);
    assert_eq!(processor.i_reg(), 0x42);
    assert_eq!(processor.sp(), 3);
    assert_eq!(processor.current_key(), Some(Key::KC));
    let mut d = processor.display();
    d.set_pixel(1, 2, true);
    processor.set_display(d);
    assert!(processor.display.get_pixel(1, 2));
}

#[test]
fn tick_reports_drawn_cells() {
    let mut processor = Processor::new();
    processor.load(vec![0xA0, 0x00, 0xD0, 0x01]);
    processor.tick();
    let out = processor.tick();
    assert!(out.success);
    assert_eq!(out.opcode, 0xD001);
    assert_eq!(out.edited_pixels.len(), 8);
    assert_eq!(out.edited_pixels[7], 7);
}
