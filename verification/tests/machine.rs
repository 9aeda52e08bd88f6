//! Behavior of the machine core: construction, stepping, instruction
//! semantics, faults, and the promised scenarios.

use chip8::audio::Audio;
use chip8::cpu::{decode, Fault, Instr, CPU};
use chip8::input::Keypad;
use chip8::video::Display;

fn machine(rom: &[u8]) -> CPU {
    let rom: Vec<u8> = rom.to_vec();
    CPU::new(&rom)
}

#[test]
fn new_machine_initial_state() {
    let cpu = machine(&[0x12, 0x34]);
    assert_eq!(cpu.pc, 0x200);
    assert_eq!(cpu.i, 0);
    assert_eq!(cpu.sp, 0);
    assert_eq!(cpu.v, vec![0u8; 16]);
    assert_eq!(cpu.stack, vec![0usize; 16]);
    assert_eq!(cpu.key_register, None);
    assert_eq!(cpu.audio.delay, 0);
    assert_eq!(cpu.audio.sound, 0);
    assert_eq!(cpu.ram.len(), 4096);
    assert_eq!(cpu.ram[0x200], 0x12);
    assert_eq!(cpu.ram[0x201], 0x34);
    assert_eq!(cpu.ram[0x202], 0);
    assert_eq!(cpu.ram[4095], 0);
}

#[test]
fn new_machine_loads_font() {
    let cpu = machine(&[]);
    // glyph 0 starts with 0xF0, glyph F ends with 0x80
    assert_eq!(cpu.ram[0], 0xF0);
    assert_eq!(cpu.ram[1], 0x90);
    assert_eq!(cpu.ram[79], 0x80);
    // between font and program start everything is zero
    assert_eq!(cpu.ram[80], 0);
    assert_eq!(cpu.ram[0x1FF], 0);
}

#[test]
fn new_machine_truncates_long_image() {
    let rom: Vec<u8> = vec![0xAB; 4000];
    let cpu = CPU::new(&rom);
    assert_eq!(cpu.ram[0x200], 0xAB);
    assert_eq!(cpu.ram[0x200 + 3583], 0xAB);
    assert_eq!(cpu.ram.len(), 4096);
}

#[test]
fn decode_exact_table() {
    assert_eq!(decode(0x00E0), Some(Instr::Cls));
    assert_eq!(decode(0x00EE), Some(Instr::Ret));
    assert_eq!(decode(0x0123), Some(Instr::Sys(0x123)));
    assert_eq!(decode(0x1ABC), Some(Instr::Jp(0xABC)));
    assert_eq!(decode(0x2ABC), Some(Instr::Call(0xABC)));
    assert_eq!(decode(0x3A42), Some(Instr::SeByte(0xA, 0x42)));
    assert_eq!(decode(0x4A42), Some(Instr::SneByte(0xA, 0x42)));
    assert_eq!(decode(0x5AB0), Some(Instr::SeReg(0xA, 0xB)));
    assert_eq!(decode(0x6A42), Some(Instr::LdByte(0xA, 0x42)));
    assert_eq!(decode(0x7A42), Some(Instr::AddByte(0xA, 0x42)));
    assert_eq!(decode(0x8AB0), Some(Instr::LdReg(0xA, 0xB)));
    assert_eq!(decode(0x8AB1), Some(Instr::OrReg(0xA, 0xB)));
    assert_eq!(decode(0x8AB2), Some(Instr::AndReg(0xA, 0xB)));
    assert_eq!(decode(0x8AB3), Some(Instr::XorReg(0xA, 0xB)));
    assert_eq!(decode(0x8AB4), Some(Instr::AddReg(0xA, 0xB)));
    assert_eq!(decode(0x8AB5), Some(Instr::SubReg(0xA, 0xB)));
    assert_eq!(decode(0x8AB6), Some(Instr::ShrReg(0xA, 0xB)));
    assert_eq!(decode(0x8AB7), Some(Instr::SubnReg(0xA, 0xB)));
    assert_eq!(decode(0x8ABE), Some(Instr::ShlReg(0xA, 0xB)));
    assert_eq!(decode(0x9AB0), Some(Instr::SneReg(0xA, 0xB)));
    assert_eq!(decode(0xAABC), Some(Instr::LdI(0xABC)));
    assert_eq!(decode(0xBABC), Some(Instr::JpV0(0xABC)));
    assert_eq!(decode(0xCA42), Some(Instr::Rnd(0xA, 0x42)));
    assert_eq!(decode(0xDAB7), Some(Instr::Drw(0xA, 0xB, 0x7)));
    assert_eq!(decode(0xEA9E), Some(Instr::Skp(0xA)));
    assert_eq!(decode(0xEAA1), Some(Instr::Sknp(0xA)));
    assert_eq!(decode(0xFA07), Some(Instr::LdDelay(0xA)));
    assert_eq!(decode(0xFA0A), Some(Instr::WaitKey(0xA)));
    assert_eq!(decode(0xFA15), Some(Instr::SetDelay(0xA)));
    assert_eq!(decode(0xFA18), Some(Instr::SetSound(0xA)));
    assert_eq!(decode(0xFA1E), Some(Instr::AddI(0xA)));
    assert_eq!(decode(0xFA29), Some(Instr::LdFont(0xA)));
    assert_eq!(decode(0xFA33), Some(Instr::Bcd(0xA)));
    assert_eq!(decode(0xFA55), Some(Instr::StoreRegs(0xA)));
    assert_eq!(decode(0xFA65), Some(Instr::LoadRegs(0xA)));
}

#[test]
fn decode_rejects_malformed_words() {
    assert_eq!(decode(0x5AB1), None);
    assert_eq!(decode(0x8AB8), None);
    assert_eq!(decode(0x8ABF), None);
    assert_eq!(decode(0x9AB4), None);
    assert_eq!(decode(0xEA00), None);
    assert_eq!(decode(0xFA00), None);
    assert_eq!(decode(0xFAFF), None);
}

// Addition with carry: Vx = (a + b) mod 256, VF = 1 iff a + b > 255.
#[test]
fn alu_add_carry_and_wrap() {
    let mut cpu = machine(&[]);
    cpu.v[1] = 200;
    cpu.v[2] = 100;
    cpu.op_8xy4(1, 2);
    assert_eq!(cpu.v[1], 44); // 300 mod 256
    assert_eq!(cpu.v[0xF], 1);

    cpu.v[3] = 10;
    cpu.v[4] = 20;
    cpu.op_8xy4(3, 4);
    assert_eq!(cpu.v[3], 30);
    assert_eq!(cpu.v[0xF], 0);

    cpu.v[5] = 255;
    cpu.v[6] = 1;
    cpu.op_8xy4(5, 6);
    assert_eq!(cpu.v[5], 0);
    assert_eq!(cpu.v[0xF], 1);
}

// Subtraction: VF = 1 iff a > b, Vx = (a - b) mod 256.
#[test]
fn alu_sub_not_borrow() {
    let mut cpu = machine(&[]);
    cpu.v[1] = 7;
    cpu.v[2] = 9;
    cpu.op_8xy5(1, 2);
    assert_eq!(cpu.v[1], 254); // -2 mod 256
    assert_eq!(cpu.v[0xF], 0);

    cpu.v[3] = 9;
    cpu.v[4] = 7;
    cpu.op_8xy5(3, 4);
    assert_eq!(cpu.v[3], 2);
    assert_eq!(cpu.v[0xF], 1);

    cpu.v[5] = 5;
    cpu.v[6] = 5;
    cpu.op_8xy5(5, 6);
    assert_eq!(cpu.v[5], 0);
    assert_eq!(cpu.v[0xF], 0); // equal operands: no "greater", flag 0
}

#[test]
fn alu_subn_reverse() {
    let mut cpu = machine(&[]);
    cpu.v[1] = 3;
    cpu.v[2] = 10;
    cpu.op_8xy7(1, 2);
    assert_eq!(cpu.v[1], 7);
    assert_eq!(cpu.v[0xF], 1);

    cpu.v[3] = 10;
    cpu.v[4] = 3;
    cpu.op_8xy7(3, 4);
    assert_eq!(cpu.v[3], 249); // 3 - 10 mod 256
    assert_eq!(cpu.v[0xF], 0);
}

// Shifts: SHR gives VF = a & 1 and Vx = a >> 1; SHL gives VF = top bit
// and Vx = (a << 1) mod 256.
#[test]
fn alu_shifts() {
    let mut cpu = machine(&[]);
    cpu.v[1] = 0b1010_0101;
    cpu.op_8xy6(1, 2);
    assert_eq!(cpu.v[1], 0b0101_0010);
    assert_eq!(cpu.v[0xF], 1);

    cpu.v[1] = 0b1010_0100;
    cpu.op_8xy6(1, 2);
    assert_eq!(cpu.v[1], 0b0101_0010);
    assert_eq!(cpu.v[0xF], 0);

    cpu.v[2] = 0b1010_0101;
    cpu.op_8xye(2, 3);
    assert_eq!(cpu.v[2], 0b0100_1010);
    assert_eq!(cpu.v[0xF], 1);

    cpu.v[2] = 0b0010_0101;
    cpu.op_8xye(2, 3);
    assert_eq!(cpu.v[2], 0b0100_1010);
    assert_eq!(cpu.v[0xF], 0);
}

#[test]
fn alu_bitwise() {
    let mut cpu = machine(&[]);
    cpu.v[1] = 0b1100;
    cpu.v[2] = 0b1010;
    cpu.op_8xy1(1, 2);
    assert_eq!(cpu.v[1], 0b1110);
    cpu.v[1] = 0b1100;
    cpu.op_8xy2(1, 2);
    assert_eq!(cpu.v[1], 0b1000);
    cpu.v[1] = 0b1100;
    cpu.op_8xy3(1, 2);
    assert_eq!(cpu.v[1], 0b0110);
}

// Jump sets PC to NNN exactly, no +2 advance.
#[test]
fn jump_is_exact() {
    let mut cpu = machine(&[]);
    cpu.op_1nnn(0x345);
    assert_eq!(cpu.pc, 0x345);
}

#[test]
fn jump_v0_adds_register() {
    let mut cpu = machine(&[]);
    cpu.v[0] = 0x10;
    cpu.op_bnnn(0x300);
    assert_eq!(cpu.pc, 0x310);
}

// Call then return lands just past the call site with the stack restored.
#[test]
fn call_then_ret_returns_home() {
    let mut cpu = machine(&[]);
    assert_eq!(cpu.pc, 0x200);
    assert_eq!(cpu.op_2nnn(0x400), Ok(()));
    assert_eq!(cpu.pc, 0x400);
    assert_eq!(cpu.sp, 1);
    assert_eq!(cpu.op_00ee(), Ok(()));
    assert_eq!(cpu.pc, 0x202);
    assert_eq!(cpu.sp, 0);
}

#[test]
fn ret_on_empty_stack_is_reported() {
    let mut cpu = machine(&[]);
    assert_eq!(cpu.op_00ee(), Err(Fault::StackUnderflow));
    assert_eq!(cpu.pc, 0x200);
}

#[test]
fn call_on_full_stack_is_reported() {
    let mut cpu = machine(&[]);
    for _ in 0..16 {
        assert_eq!(cpu.op_2nnn(0x300), Ok(()));
    }
    assert_eq!(cpu.sp, 16);
    assert_eq!(cpu.op_2nnn(0x300), Err(Fault::StackOverflow));
    assert_eq!(cpu.sp, 16);
}

// Skips advance PC by 4 when the condition holds, by 2 otherwise.
#[test]
fn skip_family_advances() {
    let mut cpu = machine(&[]);
    cpu.v[1] = 0x42;
    cpu.op_3xkk(1, 0x42);
    assert_eq!(cpu.pc, 0x204);
    cpu.op_3xkk(1, 0x43);
    assert_eq!(cpu.pc, 0x206);
    cpu.op_4xkk(1, 0x43);
    assert_eq!(cpu.pc, 0x20A);
    cpu.op_4xkk(1, 0x42);
    assert_eq!(cpu.pc, 0x20C);
    cpu.v[2] = 0x42;
    cpu.op_5xy0(1, 2);
    assert_eq!(cpu.pc, 0x210);
    cpu.op_9xy0(1, 2);
    assert_eq!(cpu.pc, 0x212);
    cpu.v[2] = 0;
    cpu.op_9xy0(1, 2);
    assert_eq!(cpu.pc, 0x216);
}

#[test]
fn load_and_add_immediates() {
    let mut cpu = machine(&[]);
    cpu.op_6xkk(7, 0xAB);
    assert_eq!(cpu.v[7], 0xAB);
    cpu.op_7xkk(7, 0x10);
    assert_eq!(cpu.v[7], 0xBB);
    cpu.v[8] = 250;
    cpu.op_7xkk(8, 10);
    assert_eq!(cpu.v[8], 4); // wraps, no flag
    assert_eq!(cpu.v[0xF], 0);
}

#[test]
fn address_register_ops() {
    let mut cpu = machine(&[]);
    cpu.op_annn(0x321);
    assert_eq!(cpu.i, 0x321);
    cpu.v[4] = 0x10;
    cpu.op_fx1e(4);
    assert_eq!(cpu.i, 0x331);
    // the 16-bit add wraps and raises no flag
    cpu.i = 0xFFFF;
    cpu.v[4] = 2;
    cpu.op_fx1e(4);
    assert_eq!(cpu.i, 1);
    assert_eq!(cpu.v[0xF], 0);
}

#[test]
fn font_address_is_five_times_digit() {
    let mut cpu = machine(&[]);
    cpu.v[3] = 0xA;
    cpu.op_fx29(3);
    assert_eq!(cpu.i, 50);
    // the glyph bytes for A sit there
    assert_eq!(cpu.ram[50], 0xF0);
    assert_eq!(cpu.ram[54], 0x90);
}

#[test]
fn bcd_digits() {
    let mut cpu = machine(&[]);
    cpu.v[2] = 254;
    cpu.i = 0x300;
    assert_eq!(cpu.op_fx33(2), Ok(()));
    assert_eq!(cpu.ram[0x300], 2);
    assert_eq!(cpu.ram[0x301], 5);
    assert_eq!(cpu.ram[0x302], 4);
    cpu.v[2] = 7;
    assert_eq!(cpu.op_fx33(2), Ok(()));
    assert_eq!(&cpu.ram[0x300..0x303], &[0, 0, 7]);
}

#[test]
fn bcd_past_end_of_memory_is_reported() {
    let mut cpu = machine(&[]);
    cpu.i = 4094;
    assert_eq!(cpu.op_fx33(0), Err(Fault::MemoryOutOfBounds));
}

#[test]
fn store_and_load_registers_roundtrip() {
    let mut cpu = machine(&[]);
    for r in 0..8usize {
        cpu.v[r] = (r as u8) * 3 + 1;
    }
    cpu.i = 0x250;
    assert_eq!(cpu.op_fx55(7), Ok(()));
    for r in 0..8usize {
        assert_eq!(cpu.ram[0x250 + r], (r as u8) * 3 + 1);
    }
    assert_eq!(cpu.ram[0x258], 0); // one past the span is untouched
    for r in 0..16usize {
        cpu.v[r] = 0;
    }
    assert_eq!(cpu.op_fx65(7), Ok(()));
    for r in 0..8usize {
        assert_eq!(cpu.v[r], (r as u8) * 3 + 1);
    }
    assert_eq!(cpu.v[8], 0); // registers past x keep their values
}

#[test]
fn store_registers_past_end_is_reported() {
    let mut cpu = machine(&[]);
    cpu.i = 4090;
    assert_eq!(cpu.op_fx55(15), Err(Fault::MemoryOutOfBounds));
    assert_eq!(cpu.op_fx65(15), Err(Fault::MemoryOutOfBounds));
    assert_eq!(cpu.op_fx55(5), Ok(()));
}

#[test]
fn random_is_masked() {
    let mut cpu = machine(&[]);
    cpu.op_cxkk(1, 0x0F);
    assert!(cpu.v[1] <= 0x0F);
    cpu.op_cxkk(2, 0x00);
    assert_eq!(cpu.v[2], 0);
}

#[test]
fn timer_ops_and_read() {
    let mut cpu = machine(&[]);
    cpu.v[1] = 9;
    cpu.op_fx15(1);
    assert_eq!(cpu.audio.delay, 9);
    cpu.op_fx18(1);
    assert_eq!(cpu.audio.sound, 9);
    cpu.op_fx07(2);
    assert_eq!(cpu.v[2], 9);
}

#[test]
fn timers_saturate_at_zero() {
    let mut audio = Audio::new();
    audio.tick();
    assert_eq!(audio.delay, 0);
    assert_eq!(audio.sound, 0);
    audio.delay = 2;
    audio.sound = 1;
    audio.tick();
    assert_eq!(audio.delay, 1);
    assert_eq!(audio.sound, 0);
    audio.tick();
    assert_eq!(audio.delay, 0);
    assert_eq!(audio.sound, 0);
}

// Scenario: 0x60 0x05 (V0 = 5) then 0x70 0x03 (V0 += 3): after two
// steps V0 = 8 and PC = 0x204.
#[test]
fn scenario_load_then_add() {
    let mut cpu = machine(&[0x60, 0x05, 0x70, 0x03]);
    assert_eq!(cpu.tick(), Ok(true));
    assert_eq!(cpu.v[0], 5);
    assert_eq!(cpu.pc, 0x202);
    assert_eq!(cpu.tick(), Ok(true));
    assert_eq!(cpu.v[0], 8);
    assert_eq!(cpu.pc, 0x204);
}

// Scenario: I = 0x200, then draw a 1-row sprite at (V0, V1) = (0, 0)
// with memory[0x200] = 0xFF: the top 8 pixels of row 0 light up, VF = 0.
#[test]
fn scenario_draw_first_row() {
    let mut cpu = machine(&[0xA2, 0x00, 0xD0, 0x01]);
    assert_eq!(cpu.tick(), Ok(true));
    assert_eq!(cpu.i, 0x200);
    cpu.ram[0x200] = 0xFF; // the sprite row the draw will read
    assert_eq!(cpu.tick(), Ok(true));
    for x in 0..8 {
        assert!(cpu.display.pixel(x, 0));
    }
    assert!(!cpu.display.pixel(8, 0));
    assert_eq!(cpu.v[0xF], 0);
}

// Scenario: a key-wait for register 3, then a release of key 0xA: the
// next step stores 0xA in V3 and clears the wait.
#[test]
fn scenario_key_wait_resolves() {
    let mut cpu = machine(&[0xF3, 0x0A]);
    assert_eq!(cpu.tick(), Ok(true));
    assert_eq!(cpu.key_register, Some(3));
    let pc_waiting = cpu.pc;
    // while nothing is released, steps do nothing
    assert_eq!(cpu.tick(), Ok(true));
    assert_eq!(cpu.key_register, Some(3));
    cpu.keypad.on_event(0xA, true);
    cpu.keypad.on_event(0xA, false);
    assert_eq!(cpu.tick(), Ok(true));
    assert_eq!(cpu.v[3], 0xA);
    assert_eq!(cpu.key_register, None);
    assert_eq!(cpu.pc, pc_waiting);
}

#[test]
fn tick_counts_timers_down_once() {
    let mut cpu = machine(&[0x00, 0x00]); // a no-op machine routine call
    cpu.audio.delay = 5;
    cpu.audio.sound = 1;
    assert_eq!(cpu.tick(), Ok(true));
    assert_eq!(cpu.audio.delay, 4);
    assert_eq!(cpu.audio.sound, 0);
    assert_eq!(cpu.pc, 0x202);
}

#[test]
fn tick_in_key_wait_leaves_timers() {
    let mut cpu = machine(&[0xF1, 0x0A]);
    cpu.audio.delay = 5;
    assert_eq!(cpu.tick(), Ok(true)); // executes the wait, timers count
    assert_eq!(cpu.audio.delay, 4);
    assert_eq!(cpu.tick(), Ok(true)); // waiting: no countdown
    assert_eq!(cpu.audio.delay, 4);
}

#[test]
fn tick_stalls_past_end_of_memory() {
    let mut cpu = machine(&[]);
    cpu.pc = 4096;
    assert_eq!(cpu.tick(), Ok(true));
    assert_eq!(cpu.pc, 4096);
    cpu.pc = 4095; // a full instruction no longer fits
    cpu.audio.delay = 3;
    assert_eq!(cpu.tick(), Ok(true));
    assert_eq!(cpu.pc, 4095);
    assert_eq!(cpu.audio.delay, 3);
}

#[test]
fn tick_reports_unknown_opcode() {
    let mut cpu = machine(&[0xFF, 0xFF]);
    assert_eq!(
        cpu.tick(),
        Err(Fault::UnknownOpcode { addr: 0x200, opcode: 0xFFFF })
    );
}

#[test]
fn key_skip_ops() {
    let mut cpu = machine(&[]);
    cpu.v[1] = 0xB;
    cpu.keypad.on_event(0xB, true);
    assert_eq!(cpu.op_ex9e(1), Ok(()));
    assert_eq!(cpu.pc, 0x204);
    assert_eq!(cpu.op_exa1(1), Ok(()));
    assert_eq!(cpu.pc, 0x206);
    cpu.keypad.on_event(0xB, false);
    assert_eq!(cpu.op_ex9e(1), Ok(()));
    assert_eq!(cpu.pc, 0x208);
    assert_eq!(cpu.op_exa1(1), Ok(()));
    assert_eq!(cpu.pc, 0x20C);
}

#[test]
fn key_skip_rejects_bad_key() {
    let mut cpu = machine(&[]);
    cpu.v[1] = 0x20;
    assert_eq!(cpu.op_ex9e(1), Err(Fault::KeyOutOfRange));
    assert_eq!(cpu.op_exa1(1), Err(Fault::KeyOutOfRange));
    assert_eq!(cpu.pc, 0x200);
}

#[test]
fn keypad_latch_overwrites_and_consumes() {
    let mut keypad = Keypad::new();
    assert_eq!(keypad.consume_last_released(), None);
    keypad.on_event(2, true);
    keypad.on_event(2, false);
    keypad.on_event(5, true);
    keypad.on_event(5, false);
    assert_eq!(keypad.consume_last_released(), Some(5));
    assert_eq!(keypad.consume_last_released(), None);
    keypad.on_event(7, true);
    assert_eq!(keypad.consume_last_released(), None); // a press latches nothing
    assert!(keypad.pressed[7]);
    assert!(!keypad.pressed[5]);
}

#[test]
fn display_set_wraps_and_collides() {
    let mut display = Display::new();
    assert!(!display.consume_dirty()); // nothing has changed yet
    let hit = display.set(64 + 3, 32 + 1, true);
    assert!(!hit);
    assert!(display.pixel(3, 1));
    assert!(display.consume_dirty());
    assert!(!display.consume_dirty());
    let hit = display.set(3, 1, true); // same cell: collision, toggles off
    assert!(hit);
    assert!(!display.pixel(3, 1));
    let hit = display.set(3, 1, false); // an off blit never collides
    assert!(!hit);
    assert!(!display.pixel(3, 1));
}

// Drawing the same sprite twice restores the framebuffer, and the second
// draw reports a collision on the previously set pixels.
#[test]
fn draw_twice_restores_grid() {
    let mut cpu = machine(&[]);
    cpu.ram[0x300] = 0b1010_0001;
    cpu.ram[0x301] = 0b0111_1110;
    cpu.i = 0x300;
    cpu.v[0] = 60; // wraps horizontally
    cpu.v[1] = 31; // wraps vertically
    assert_eq!(cpu.op_dxyn(0, 1, 2), Ok(()));
    assert_eq!(cpu.v[0xF], 0);
    assert!(cpu.display.pixel(60, 31));
    assert!(cpu.display.pixel(0, 0)); // row 1 wrapped to the top
    assert_eq!(cpu.op_dxyn(0, 1, 2), Ok(()));
    assert_eq!(cpu.v[0xF], 1); // every touched set pixel collides
    for y in 0..32 {
        for x in 0..64 {
            assert!(!cpu.display.pixel(x, y));
        }
    }
}

#[test]
fn draw_past_end_of_memory_is_reported() {
    let mut cpu = machine(&[]);
    cpu.i = 4090;
    assert_eq!(cpu.op_dxyn(0, 1, 7), Err(Fault::MemoryOutOfBounds));
    assert_eq!(cpu.op_dxyn(0, 1, 6), Ok(()));
}

#[test]
fn clear_op_blanks_and_dirties() {
    let mut cpu = machine(&[]);
    cpu.display.set(5, 5, true);
    cpu.display.consume_dirty();
    cpu.op_00e0();
    assert!(!cpu.display.pixel(5, 5));
    assert!(cpu.display.consume_dirty());
    assert_eq!(cpu.pc, 0x202);
}

#[test]
fn machine_routine_call_is_ignored() {
    let mut cpu = machine(&[0x02, 0x34]);
    assert_eq!(cpu.tick(), Ok(true));
    assert_eq!(cpu.pc, 0x202); // just advances
}
