use chip8_emulator::{Chip8, Chip8CPU, Chip8Error, Chip8Graphics, IntermediateAsm, RunState};

fn booted(program: &[u8]) -> Chip8 {
    let mut vm = Chip8::new();
    assert_eq!(vm.boot(&program.to_vec()), Ok(()));
    vm
}

fn run(vm: &mut Chip8, steps: usize) {
    for _ in 0..steps {
        assert_eq!(vm.step_with_random(0), Ok(()));
    }
}

const FONT: [u8; 80] = [
    0xF0, 0x90, 0x90, 0x90, 0xF0, 0x20, 0x60, 0x20, 0x20, 0x70, 0xF0, 0x10, 0xF0, 0x80, 0xF0, 0xF0, 0x10, 0xF0,
    0x10, 0xF0, 0x90, 0x90, 0xF0, 0x10, 0x10, 0xF0, 0x80, 0xF0, 0x10, 0xF0, 0xF0, 0x80, 0xF0, 0x90, 0xF0, 0xF0,
    0x10, 0x20, 0x40, 0x40, 0xF0, 0x90, 0xF0, 0x90, 0xF0, 0xF0, 0x90, 0xF0, 0x10, 0xF0, 0xF0, 0x90, 0xF0, 0x90,
    0x90, 0xE0, 0x90, 0xE0, 0x90, 0xE0, 0xF0, 0x80, 0x80, 0x80, 0xF0, 0xE0, 0x90, 0x90, 0x90, 0xE0, 0xF0, 0x80,
    0xF0, 0x80, 0xF0, 0xF0, 0x80, 0xF0, 0x80, 0x80,
];

#[test]
fn first_step_after_boot_runs_word_at_program_start() {
    let mut vm = booted(&[0x60, 0x2A]);
    assert_eq!(vm.cpu.reg_pc, 0x200);
    run(&mut vm, 1);
    assert_eq!(vm.cpu.reg_gp[0], 0x2A);
    assert_eq!(vm.cpu.reg_pc, 0x202);
}

#[test]
fn boot_writes_font_and_image() {
    let vm = booted(&[1, 2, 3]);
    assert_eq!(&vm.bus.memory.memory[0..80], &FONT[..]);
    assert_eq!(&vm.bus.memory.memory[0x200..0x203], &[1, 2, 3]);
    assert_eq!(vm.bus.memory.memory[0x203], 0);
    assert_eq!(vm.bus.memory.memory[80], 0);
}

#[test]
fn boot_resets_a_running_machine() {
    let mut vm = booted(&[0x60, 0x11, 0x12, 0x00]);
    run(&mut vm, 1);
    assert_eq!(vm.boot(&vec![0x12, 0x00]), Ok(()));
    assert_eq!(vm.cpu.reg_pc, 0x200);
    assert_eq!(vm.cpu.reg_gp[0], 0);
    assert_eq!(vm.bus.memory.memory[0x202], 0);
}

#[test]
fn boot_accepts_largest_image_and_refuses_larger() {
    let mut vm = Chip8::new();
    assert_eq!(vm.boot(&vec![0xAB; 3584]), Ok(()));
    assert_eq!(vm.bus.memory.memory[0xFFF], 0xAB);
    let mut other = booted(&[0x12, 0x34]);
    assert_eq!(other.boot(&vec![0; 3585]), Err(Chip8Error::LoadTooLarge { size: 3585 }));
    assert_eq!(other.bus.memory.memory[0x200], 0x12);
    assert_eq!(other.bus.memory.memory[0x201], 0x34);
}

#[test]
fn sprite_location_is_five_times_digit() {
    for n in 0u8..16 {
        assert_eq!(Chip8CPU::sprite_location(n), 5 * n as u16);
    }
}

#[test]
fn load_sprite_location_points_at_glyph() {
    let mut vm = booted(&[0x60, 0x0B, 0xF0, 0x29]);
    run(&mut vm, 2);
    assert_eq!(vm.cpu.reg_i, 55);
    assert_eq!(&vm.bus.memory.memory[55..60], &[0xE0, 0x90, 0xE0, 0x90, 0xE0]);
}

#[test]
fn drawing_twice_restores_pixels() {
    let mut memory = vec![0u8; 4096];
    memory[10] = 0b1011_0001;
    memory[11] = 0b0110_1100;
    let mut g = Chip8Graphics::new();
    g.memory[3 * 64 + 5] = true;
    g.memory[4 * 64 + 9] = true;
    let before = g.memory.clone();
    let first = g.draw_sprite(&memory, 4, 3, 10, 2);
    assert_ne!(g.memory, before);
    let _second = g.draw_sprite(&memory, 4, 3, 10, 2);
    assert_eq!(g.memory, before);
    assert!(first);
}

#[test]
fn full_row_drawn_twice_collides_and_clears() {
    let memory = vec![0xFFu8; 1];
    let mut g = Chip8Graphics::new();
    g.clear();
    assert!(!g.draw_sprite(&memory, 0, 0, 0, 1));
    for x in 0..8 {
        assert!(g.get_pixel_value(x, 0));
    }
    assert!(g.draw_sprite(&memory, 0, 0, 0, 1));
    assert!(g.memory.iter().all(|p| !p));
}

#[test]
fn draw_instruction_sets_flag_register() {
    // I := glyph 0; V0 := 0; draw 5 rows at (V0, V0) twice.
    let mut vm = booted(&[0xA0, 0x00, 0x60, 0x00, 0xD0, 0x05, 0xD0, 0x05]);
    run(&mut vm, 3);
    assert_eq!(vm.cpu.reg_gp[15], 0);
    assert!(vm.bus.graphics.get_pixel_value(0, 0));
    assert!(!vm.bus.graphics.get_pixel_value(1, 1));
    run(&mut vm, 1);
    assert_eq!(vm.cpu.reg_gp[15], 1);
    assert!(vm.bus.graphics.memory.iter().all(|p| !p));
}

#[test]
fn sprite_past_the_edge_collides_without_wrapping() {
    let memory = vec![0x01u8; 2];
    let mut g = Chip8Graphics::new();
    assert!(g.draw_sprite(&memory, 60, 0, 0, 1));
    assert!(!g.get_pixel_value(3, 1));
    assert!(!g.get_pixel_value(63, 0));
    let mut h = Chip8Graphics::new();
    assert!(h.draw_sprite(&memory, 0, 31, 0, 2));
    assert!(h.get_pixel_value(7, 31));
}

#[test]
fn add_with_carry() {
    let mut vm = booted(&[0x60, 250, 0x61, 10, 0x80, 0x14, 0x62, 1, 0x63, 1, 0x82, 0x34]);
    run(&mut vm, 3);
    assert_eq!(vm.cpu.reg_gp[0], 4);
    assert_eq!(vm.cpu.reg_gp[15], 1);
    run(&mut vm, 3);
    assert_eq!(vm.cpu.reg_gp[2], 2);
    assert_eq!(vm.cpu.reg_gp[15], 0);
}

#[test]
fn subtract_with_borrow() {
    let mut vm = booted(&[0x60, 5, 0x61, 3, 0x80, 0x15, 0x62, 3, 0x63, 5, 0x82, 0x35]);
    run(&mut vm, 3);
    assert_eq!(vm.cpu.reg_gp[0], 2);
    assert_eq!(vm.cpu.reg_gp[15], 1);
    run(&mut vm, 3);
    assert_eq!(vm.cpu.reg_gp[2], 254);
    assert_eq!(vm.cpu.reg_gp[15], 0);
}

#[test]
fn subtract_equal_operands_sets_no_borrow() {
    let mut vm = booted(&[0x60, 7, 0x61, 7, 0x80, 0x15]);
    run(&mut vm, 3);
    assert_eq!(vm.cpu.reg_gp[0], 0);
    assert_eq!(vm.cpu.reg_gp[15], 1);
}

#[test]
fn reverse_subtract() {
    let mut vm = booted(&[0x60, 3, 0x61, 5, 0x80, 0x17, 0x62, 5, 0x63, 3, 0x82, 0x37]);
    run(&mut vm, 3);
    assert_eq!(vm.cpu.reg_gp[0], 2);
    assert_eq!(vm.cpu.reg_gp[15], 1);
    run(&mut vm, 3);
    assert_eq!(vm.cpu.reg_gp[2], 254);
    assert_eq!(vm.cpu.reg_gp[15], 0);
}

#[test]
fn shifts_read_second_register_and_write_both() {
    let mut vm = booted(&[0x61, 0b1000_0011, 0x80, 0x16, 0x63, 0b1000_0010, 0x82, 0x3E]);
    run(&mut vm, 2);
    assert_eq!(vm.cpu.reg_gp[0], 0b0100_0001);
    assert_eq!(vm.cpu.reg_gp[1], 0b0100_0001);
    assert_eq!(vm.cpu.reg_gp[15], 1);
    run(&mut vm, 2);
    assert_eq!(vm.cpu.reg_gp[2], 0b0000_0100);
    assert_eq!(vm.cpu.reg_gp[3], 0b0000_0100);
    assert_eq!(vm.cpu.reg_gp[15], 1);
}

#[test]
fn flag_is_written_after_result() {
    // VF := 200; V1 := 100; VF += V1 -> carry wins over the sum.
    let mut vm = booted(&[0x6F, 200, 0x61, 100, 0x8F, 0x14]);
    run(&mut vm, 3);
    assert_eq!(vm.cpu.reg_gp[15], 1);
}

#[test]
fn immediate_add_wraps_without_flag() {
    let mut vm = booted(&[0x60, 0xFF, 0x6F, 9, 0x70, 0x02]);
    run(&mut vm, 3);
    assert_eq!(vm.cpu.reg_gp[0], 1);
    assert_eq!(vm.cpu.reg_gp[15], 9);
}

#[test]
fn bitwise_operations() {
    let mut vm = booted(&[0x60, 0b1100, 0x61, 0b1010, 0x82, 0x00, 0x82, 0x11, 0x83, 0x00, 0x83, 0x12, 0x84, 0x00, 0x84, 0x13]);
    run(&mut vm, 8);
    assert_eq!(vm.cpu.reg_gp[2], 0b1110);
    assert_eq!(vm.cpu.reg_gp[3], 0b1000);
    assert_eq!(vm.cpu.reg_gp[4], 0b0110);
}

#[test]
fn call_then_return() {
    // 0x200: call 0x206; 0x202: V0 := 1; 0x206: return
    let mut vm = booted(&[0x22, 0x06, 0x60, 0x01, 0x00, 0x00, 0x00, 0xEE]);
    let depth = vm.cpu.reg_sp;
    run(&mut vm, 1);
    assert_eq!(vm.cpu.reg_pc, 0x206);
    assert_eq!(vm.cpu.reg_sp, depth + 1);
    assert_eq!(vm.cpu.stack[vm.cpu.reg_sp as usize], 0x202);
    run(&mut vm, 1);
    assert_eq!(vm.cpu.reg_pc, 0x202);
    assert_eq!(vm.cpu.reg_sp, depth);
    run(&mut vm, 1);
    assert_eq!(vm.cpu.reg_gp[0], 1);
}

#[test]
fn return_on_empty_stack_underflows() {
    let mut vm = booted(&[0x00, 0xEE]);
    assert_eq!(vm.step_with_random(0), Err(Chip8Error::StackUnderflow { pc: 0x200 }));
    assert_eq!(vm.cpu.reg_pc, 0x200);
}

#[test]
fn deep_calls_overflow() {
    // Each call targets the next instruction.
    let mut program = Vec::new();
    for k in 0..16u16 {
        let target = 0x200 + 2 * (k + 1);
        program.push(0x20 | (target >> 8) as u8);
        program.push((target & 0xFF) as u8);
    }
    let mut vm = booted(&program);
    run(&mut vm, 15);
    assert_eq!(vm.cpu.reg_sp, 15);
    assert_eq!(vm.step_with_random(0), Err(Chip8Error::StackOverflow { pc: 0x21E }));
}

#[test]
fn skips() {
    // V0 := 5; skip if V0 == 5; (skipped) V1 := 1; skip if V0 != 5; V2 := 2
    let mut vm = booted(&[0x60, 5, 0x30, 5, 0x61, 1, 0x40, 5, 0x62, 2]);
    run(&mut vm, 4);
    assert_eq!(vm.cpu.reg_gp[1], 0);
    assert_eq!(vm.cpu.reg_gp[2], 2);
    assert_eq!(vm.cpu.reg_pc, 0x20A);
}

#[test]
fn register_skips() {
    // V0 := 1; V1 := 1; skip if V0 == V1; (skipped); skip if V0 != V1; V3 := 3
    let mut vm = booted(&[0x60, 1, 0x61, 1, 0x50, 0x10, 0x62, 2, 0x90, 0x10, 0x63, 3]);
    run(&mut vm, 5);
    assert_eq!(vm.cpu.reg_gp[2], 0);
    assert_eq!(vm.cpu.reg_gp[3], 3);
}

#[test]
fn key_skips() {
    // V0 := 4; skip if key V0 down; V1 := 1; skip if key V0 up; V2 := 2
    let mut vm = booted(&[0x60, 4, 0xE0, 0x9E, 0x61, 1, 0xE0, 0xA1, 0x62, 2]);
    vm.do_key_event(4, true);
    run(&mut vm, 4);
    assert_eq!(vm.cpu.reg_gp[1], 0);
    assert_eq!(vm.cpu.reg_gp[2], 2);
}

#[test]
fn key_wait_halts_until_press() {
    let mut vm = booted(&[0xF3, 0x0A, 0x60, 0x09]);
    run(&mut vm, 1);
    assert_eq!(vm.cpu.run_state, RunState::WaitingForKey { register: 3 });
    let pc = vm.cpu.reg_pc;
    run(&mut vm, 5);
    assert_eq!(vm.cpu.reg_pc, pc);
    assert_eq!(vm.cpu.reg_gp[0], 0);
    vm.do_key_event(7, true);
    assert_eq!(vm.cpu.reg_gp[3], 7);
    assert_eq!(vm.cpu.run_state, RunState::Running);
    run(&mut vm, 1);
    assert_eq!(vm.cpu.reg_gp[0], 9);
}

#[test]
fn key_release_does_not_resume() {
    let mut vm = booted(&[0xF3, 0x0A]);
    vm.do_key_event(2, true);
    run(&mut vm, 1);
    vm.do_key_event(2, false);
    assert_eq!(vm.cpu.run_state, RunState::WaitingForKey { register: 3 });
    assert!(!vm.bus.keypad.is_pressed(2));
}

#[test]
fn illegal_opcode_reports_address_and_word() {
    let mut vm = booted(&[0x60, 0x01, 0xFF, 0xFF]);
    run(&mut vm, 1);
    assert_eq!(vm.step_with_random(0), Err(Chip8Error::IllegalOpcode { pc: 0x202, opcode: 0xFFFF }));
    let mut other = booted(&[0x51, 0x21]);
    assert_eq!(other.step_with_random(0), Err(Chip8Error::IllegalOpcode { pc: 0x200, opcode: 0x5121 }));
}

#[test]
fn machine_call_is_unsupported() {
    let mut vm = booted(&[0x03, 0x45]);
    assert_eq!(vm.step_with_random(0), Err(Chip8Error::UnsupportedInstruction { pc: 0x200, opcode: 0x345 }));
}

#[test]
fn bcd_store() {
    let mut vm = booted(&[0x60, 254, 0xA3, 0x00, 0xF0, 0x33]);
    run(&mut vm, 3);
    assert_eq!(&vm.bus.memory.memory[0x300..0x303], &[2, 5, 4]);
    assert_eq!(vm.cpu.reg_i, 0x300);
}

#[test]
fn bcd_store_past_end_is_out_of_bounds() {
    let mut vm = booted(&[0xAF, 0xFE, 0xF0, 0x33]);
    run(&mut vm, 1);
    assert_eq!(vm.step_with_random(0), Err(Chip8Error::OutOfBoundsAccess { pc: 0x202 }));
    assert_eq!(vm.bus.memory.memory[0xFFE], 0);
}

#[test]
fn register_block_round_trip() {
    // V0..V2 := 7, 8, 9; I := 0x300; store V0..V2; V0..V2 := 0; load V0..V1
    let mut vm = booted(&[
        0x60, 7, 0x61, 8, 0x62, 9, 0xA3, 0x00, 0xF2, 0x55, 0x60, 0, 0x61, 0, 0x62, 0, 0xF1, 0x65,
    ]);
    run(&mut vm, 9);
    assert_eq!(&vm.bus.memory.memory[0x300..0x304], &[7, 8, 9, 0]);
    assert_eq!(vm.cpu.reg_gp[0], 7);
    assert_eq!(vm.cpu.reg_gp[1], 8);
    assert_eq!(vm.cpu.reg_gp[2], 0);
    assert_eq!(vm.cpu.reg_i, 0x300);
}

#[test]
fn jumps() {
    // 0x200: jump 0x206; 0x206: V0 := 2; jump V0 + 0x20A
    let mut vm = booted(&[0x12, 0x06, 0, 0, 0, 0, 0x60, 2, 0xB2, 0x0A]);
    run(&mut vm, 3);
    assert_eq!(vm.cpu.reg_pc, 0x20C);
}

#[test]
fn address_register_add() {
    let mut vm = booted(&[0xA1, 0x00, 0x60, 0x20, 0xF0, 0x1E]);
    run(&mut vm, 3);
    assert_eq!(vm.cpu.reg_i, 0x120);
}

#[test]
fn random_is_masked() {
    let mut vm = booted(&[0xC5, 0x0F]);
    assert_eq!(vm.step_with_random(0xAB), Ok(()));
    assert_eq!(vm.cpu.reg_gp[5], 0x0B);
    let mut other = booted(&[0xC5, 0x00]);
    assert_eq!(other.step(), Ok(()));
    assert_eq!(other.cpu.reg_gp[5], 0);
}

#[test]
fn timers_count_down_every_ninth_step() {
    // V0 := 3; delay := V0; sound := V0; then jump to self.
    let mut vm = booted(&[0x60, 3, 0xF0, 0x15, 0xF0, 0x18, 0x12, 0x06]);
    run(&mut vm, 3);
    assert_eq!(vm.cpu.reg_delay, 3);
    run(&mut vm, 5);
    assert_eq!(vm.cpu.reg_delay, 3);
    run(&mut vm, 1);
    assert_eq!(vm.cpu.reg_delay, 2);
    assert_eq!(vm.cpu.reg_sound, 2);
    run(&mut vm, 18);
    assert_eq!(vm.cpu.reg_delay, 0);
    run(&mut vm, 9);
    assert_eq!(vm.cpu.reg_delay, 0);
    assert_eq!(vm.cpu.reg_sound, 0);
}

#[test]
fn delay_timer_read_back() {
    let mut vm = booted(&[0x60, 42, 0xF0, 0x15, 0xF1, 0x07]);
    run(&mut vm, 3);
    assert_eq!(vm.cpu.reg_gp[1], 42);
}

#[test]
fn frames_are_handed_out_when_dirty() {
    let mut vm = booted(&[0x00, 0xE0, 0x12, 0x02]);
    let first = vm.take_frame().expect("a fresh machine has a frame to show");
    assert_eq!(first.len(), 2048);
    assert!(vm.take_frame().is_none());
    run(&mut vm, 1);
    assert!(vm.take_frame().is_some());
    run(&mut vm, 1);
    assert!(vm.take_frame().is_none());
}

#[test]
fn running_off_the_end_of_memory_is_out_of_bounds() {
    let mut vm = booted(&[0x1F, 0xFF]);
    run(&mut vm, 1);
    assert_eq!(vm.step_with_random(0), Err(Chip8Error::OutOfBoundsAccess { pc: 0xFFF }));
}

#[test]
fn decoder_table() {
    assert_eq!(Chip8CPU::decode_opcode(0x00E0), Some(IntermediateAsm::CLS));
    assert_eq!(Chip8CPU::decode_opcode(0x00EE), Some(IntermediateAsm::RET));
    assert_eq!(Chip8CPU::decode_opcode(0x0123), Some(IntermediateAsm::SYS { addr: 0x123 }));
    assert_eq!(Chip8CPU::decode_opcode(0x1ABC), Some(IntermediateAsm::JUMP { addr: 0xABC }));
    assert_eq!(Chip8CPU::decode_opcode(0x2ABC), Some(IntermediateAsm::CALL { addr: 0xABC }));
    assert_eq!(Chip8CPU::decode_opcode(0x3A12), Some(IntermediateAsm::SE_CONST { reg_index: 0xA, constant: 0x12 }));
    assert_eq!(Chip8CPU::decode_opcode(0x8AB6), Some(IntermediateAsm::SHR { reg_x_index: 0xA, reg_y_index: 0xB }));
    assert_eq!(Chip8CPU::decode_opcode(0x8ABE), Some(IntermediateAsm::SHL { reg_x_index: 0xA, reg_y_index: 0xB }));
    assert_eq!(Chip8CPU::decode_opcode(0xD123), Some(IntermediateAsm::DRW { reg_x_index: 1, reg_y_index: 2, nibble: 3 }));
    assert_eq!(Chip8CPU::decode_opcode(0xF965), Some(IntermediateAsm::LOAD_REG_ARR { reg_x_index: 9 }));
    assert_eq!(Chip8CPU::decode_opcode(0xFFFF), None);
    assert_eq!(Chip8CPU::decode_opcode(0x8008), None);
    assert_eq!(Chip8CPU::decode_opcode(0xE0A2), None);
    assert_eq!(Chip8CPU::decode_opcode(0x9001), None);
}

#[test]
fn execute_without_random_instruction() {
    let mut vm = booted(&[]);
    assert_eq!(vm.cpu.execute_opcode(&mut vm.bus, IntermediateAsm::LOAD_CONST { reg_index: 4, constant: 9 }), Ok(()));
    assert_eq!(vm.cpu.reg_gp[4], 9);
    assert_eq!(vm.cpu.reg_pc, 0x202);
}

#[test]
fn cpu_step_runs_one_cycle() {
    let mut vm = booted(&[0x65, 0x33]);
    assert_eq!(vm.cpu.step(&mut vm.bus), Ok(()));
    assert_eq!(vm.cpu.reg_gp[5], 0x33);
    assert_eq!(vm.cpu.timer_update_flag, 1);
}
