use chip8::chip8::Chip8;
use chip8::controller::Controller;
use chip8::cpu::Cpu;
use chip8::cpu::random_byte_from_draw;
use chip8::cpu::PROGRAM_START_ADDRESS;
use chip8::cpu::RANDOM_DRAWS;

/// Writes `program` (big-endian words) at the program start address.
fn load(controller: &mut Controller, program: &[u16]) {
    let mut address = PROGRAM_START_ADDRESS as usize;
    for word in program {
        controller.write_byte(address, (word >> 8) as u8);
        controller.write_byte(address + 1, (word & 0xFF) as u8);
        address += 2;
    }
}

/// Runs `steps` instructions of `program` on a fresh machine.
fn run(program: &[u16], steps: usize) -> (Cpu, Controller) {
    let mut controller = Controller::new();
    let mut cpu = Cpu::new();
    load(&mut controller, program);
    for _ in 0..steps {
        assert!(cpu.can_run_instruction(&controller));
        cpu.run_instruction(&mut controller);
    }
    (cpu, controller)
}

/// Stores V0..VF at 0xE00 and returns them, by running `AE00 FF55`.
fn registers(cpu: &mut Cpu, controller: &mut Controller) -> Vec<u8> {
    cpu.execute(controller, 0xAE00, 0, 0);
    cpu.execute(controller, 0xFF55, 0, 0);
    (0..16).map(|k| controller.read_byte(0xE00 + k)).collect()
}

#[test]
fn load_immediate_and_add() {
    let (mut cpu, mut c) = run(&[0x6A12, 0x7A05, 0x7AFF], 3);
    let v = registers(&mut cpu, &mut c);
    assert_eq!(v[0xA], 0x16);
}

#[test]
fn add_registers_sets_carry() {
    let (mut cpu, mut c) = run(&[0x60FF, 0x6102, 0x8014], 3);
    let v = registers(&mut cpu, &mut c);
    assert_eq!(v[0], 0x01);
    assert_eq!(v[0xF], 1);
    let (mut cpu, mut c) = run(&[0x6010, 0x6102, 0x8014], 3);
    let v = registers(&mut cpu, &mut c);
    assert_eq!(v[0], 0x12);
    assert_eq!(v[0xF], 0);
}

#[test]
fn add_carry_law_example() {
    // VX + 256 * VF == old VX + old VY
    let (mut cpu, mut c) = run(&[0x62C8, 0x6364, 0x8234], 3);
    let v = registers(&mut cpu, &mut c);
    assert_eq!(v[2] as u32 + 256 * v[0xF] as u32, 200 + 100);
}

#[test]
fn logic_operations() {
    let (mut cpu, mut c) = run(&[0x60F0, 0x613C, 0x8200, 0x8211, 0x8300, 0x8312, 0x8400, 0x8413], 8);
    let v = registers(&mut cpu, &mut c);
    assert_eq!(v[2], 0x3C | 0xF0);
    assert_eq!(v[3], 0xF0 & 0x3C);
    assert_eq!(v[4], 0xF0 ^ 0x3C);
}

#[test]
fn subtract_gives_difference_and_flag() {
    let (mut cpu, mut c) = run(&[0x6005, 0x6103, 0x8015], 3);
    let v = registers(&mut cpu, &mut c);
    assert_eq!(v[0], 2);
    assert_eq!(v[0xF], 1);
    let (mut cpu, mut c) = run(&[0x6003, 0x6105, 0x8015], 3);
    let v = registers(&mut cpu, &mut c);
    assert_eq!(v[0], 2);
    assert_eq!(v[0xF], 0);
    let (mut cpu, mut c) = run(&[0x6003, 0x6105, 0x8017], 3);
    let v = registers(&mut cpu, &mut c);
    assert_eq!(v[0], 2);
    assert_eq!(v[0xF], 1);
    let (mut cpu, mut c) = run(&[0x6005, 0x6103, 0x8017], 3);
    let v = registers(&mut cpu, &mut c);
    assert_eq!(v[0], 2);
    assert_eq!(v[0xF], 0);
}

#[test]
fn shifts_set_the_shifted_out_bit() {
    let (mut cpu, mut c) = run(&[0x6081, 0x8006], 2);
    let v = registers(&mut cpu, &mut c);
    assert_eq!(v[0], 0x40);
    assert_eq!(v[0xF], 1);
    let (mut cpu, mut c) = run(&[0x6081, 0x800E], 2);
    let v = registers(&mut cpu, &mut c);
    assert_eq!(v[0], 0x02);
    assert_eq!(v[0xF], 1);
    let (mut cpu, mut c) = run(&[0x6040, 0x800E], 2);
    let v = registers(&mut cpu, &mut c);
    assert_eq!(v[0], 0x80);
    assert_eq!(v[0xF], 0);
}

#[test]
fn conditional_skips() {
    // 3XNN taken: 6002 is skipped, 6003 runs.
    let (mut cpu, mut c) = run(&[0x6107, 0x3107, 0x6002, 0x6003], 3);
    assert_eq!(registers(&mut cpu, &mut c)[0], 3);
    // 4XNN not taken.
    let (mut cpu, mut c) = run(&[0x6107, 0x4107, 0x6002, 0x6003], 3);
    assert_eq!(registers(&mut cpu, &mut c)[0], 2);
    // 5XY0 taken.
    let (mut cpu, mut c) = run(&[0x6107, 0x6207, 0x5120, 0x6002, 0x6003], 4);
    assert_eq!(registers(&mut cpu, &mut c)[0], 3);
    // 9XY0 not taken.
    let (mut cpu, mut c) = run(&[0x6107, 0x6207, 0x9120, 0x6002, 0x6003], 4);
    assert_eq!(registers(&mut cpu, &mut c)[0], 2);
}

#[test]
fn jumps() {
    // 1NNN jumps over 6001.
    let (mut cpu, mut c) = run(&[0x1204, 0x6001, 0x6002], 2);
    assert_eq!(registers(&mut cpu, &mut c)[0], 2);
    // BNNN jumps to NNN + V0.
    let (mut cpu, mut c) = run(&[0x6004, 0xB202, 0x6101, 0x6102], 3);
    assert_eq!(registers(&mut cpu, &mut c)[1], 2);
}

#[test]
fn call_then_return_comes_back() {
    // 200: call 208; 202: V1 = 5; 208: V0 = 42; 20A: return
    let (mut cpu, mut c) = run(&[0x2208, 0x6105, 0x0000, 0x0000, 0x602A, 0x00EE], 4);
    let v = registers(&mut cpu, &mut c);
    assert_eq!(v[0], 42);
    assert_eq!(v[1], 5);
}

#[test]
fn return_with_empty_stack_cannot_run() {
    let mut controller = Controller::new();
    let cpu = Cpu::new();
    load(&mut controller, &[0x00EE]);
    assert!(!cpu.can_run_instruction(&controller));
}

#[test]
fn unknown_instructions_cannot_run() {
    for word in [0x0123u16, 0x8008, 0x80FF, 0xE0FF, 0xF0FF] {
        let mut controller = Controller::new();
        let cpu = Cpu::new();
        load(&mut controller, &[word]);
        assert!(!cpu.can_run_instruction(&controller), "{:#x}", word);
    }
}

#[test]
fn memory_bounds_are_checked() {
    // FX55 with I + X beyond memory.
    let (cpu, c) = run(&[0xAFFF, 0xF155], 1);
    assert!(!cpu.can_run_instruction(&c));
    // FX33 with I + 2 beyond memory.
    let (cpu, c) = run(&[0xAFFE, 0xF033], 1);
    assert!(!cpu.can_run_instruction(&c));
    // FX1E overflowing I.
    let (cpu, c) = run(&[0xAFFF, 0x60FF, 0xF01E], 2);
    assert!(cpu.can_run_instruction(&c));
    // DXYN with a sprite running past the end of memory.
    let (cpu, c) = run(&[0xAFFE, 0xD005], 1);
    assert!(!cpu.can_run_instruction(&c));
    // DXYN with rows running past row 255.
    let (cpu, c) = run(&[0x60FE, 0xD005], 1);
    assert!(!cpu.can_run_instruction(&c));
    // Program counter at the last byte of memory.
    let (cpu, c) = run(&[0x1FFF], 1);
    assert!(!cpu.can_run_instruction(&c));
}

#[test]
fn set_index_and_add_to_it() {
    let (mut cpu, mut c) = run(&[0xA300, 0x6005, 0xF01E, 0x6177, 0xF155], 5);
    // V0, V1 stored at 0x305, 0x306.
    assert_eq!(c.read_byte(0x305), 5);
    assert_eq!(c.read_byte(0x306), 0x77);
    let _ = registers(&mut cpu, &mut c);
}

#[test]
fn store_moves_index_past_the_stored_registers() {
    let (mut cpu, mut c) = run(&[0x6011, 0x6122, 0xA300, 0xF155, 0x6033, 0xF055], 6);
    assert_eq!(c.read_byte(0x300), 0x11);
    assert_eq!(c.read_byte(0x301), 0x22);
    assert_eq!(c.read_byte(0x302), 0x33);
    let _ = registers(&mut cpu, &mut c);
}

#[test]
fn store_then_load_restores_registers() {
    let (mut cpu, mut c) = run(
        &[0x6011, 0x6122, 0x6233, 0xA300, 0xF255, 0x6000, 0x6100, 0x6200, 0xA300, 0xF265],
        10,
    );
    let v = registers(&mut cpu, &mut c);
    assert_eq!(&v[0..3], &[0x11, 0x22, 0x33]);
}

#[test]
fn bcd_of_254() {
    let (_cpu, c) = run(&[0x60FE, 0xA300, 0xF033], 3);
    assert_eq!(c.read_byte(0x300), 2);
    assert_eq!(c.read_byte(0x301), 5);
    assert_eq!(c.read_byte(0x302), 4);
}

#[test]
fn font_address_of_digit() {
    // I = 5 * 7; V0 = mem[I] = first row of the glyph 7.
    let (mut cpu, mut c) = run(&[0x6007, 0xF029, 0xF065], 3);
    assert_eq!(registers(&mut cpu, &mut c)[0], 0xF0);
    let (mut cpu, mut c) = run(&[0x600B, 0xF029, 0xF065], 3);
    assert_eq!(registers(&mut cpu, &mut c)[0], 0xE0);
}

#[test]
fn draw_sprite_sets_flag_on_collision() {
    let (mut cpu, mut c) = run(&[0x6000, 0xA000, 0xD005], 3);
    let buffer = c.get_display_buffer().to_vec();
    assert_eq!(&buffer[0..8], &[1, 1, 1, 1, 0, 0, 0, 0]);
    assert_eq!(&buffer[64..72], &[1, 0, 0, 1, 0, 0, 0, 0]);
    assert_eq!(registers(&mut cpu, &mut c)[0xF], 0);
    // Draw the same glyph again: everything goes dark and VF is set.
    let (mut cpu, mut c) = run(&[0x6000, 0xA000, 0xD005, 0xD005], 4);
    assert!(c.get_display_buffer().iter().all(|p| *p == 0));
    assert_eq!(registers(&mut cpu, &mut c)[0xF], 1);
}

#[test]
fn clear_screen() {
    let (_cpu, c) = run(&[0x6000, 0xA000, 0xD005, 0x00E0], 4);
    assert!(c.get_display_buffer().iter().all(|p| *p == 0));
}

#[test]
fn key_skips() {
    // EX9E skips when the key is NOT held; EXA1 when it is.
    let mut c = Controller::new();
    let mut cpu = Cpu::new();
    load(&mut c, &[0x6005, 0xE09E, 0x6101, 0x6102]);
    c.set_key_pressed(Some(5));
    for _ in 0..3 {
        assert!(cpu.can_run_instruction(&c));
        cpu.run_instruction(&mut c);
    }
    assert_eq!(registers(&mut cpu, &mut c)[1], 1);

    let mut c = Controller::new();
    let mut cpu = Cpu::new();
    load(&mut c, &[0x6005, 0xE09E, 0x6101, 0x6102]);
    for _ in 0..3 {
        cpu.run_instruction(&mut c);
    }
    assert_eq!(registers(&mut cpu, &mut c)[1], 2);

    let mut c = Controller::new();
    let mut cpu = Cpu::new();
    load(&mut c, &[0x6005, 0xE0A1, 0x6101, 0x6102]);
    c.set_key_pressed(Some(5));
    for _ in 0..3 {
        cpu.run_instruction(&mut c);
    }
    assert_eq!(registers(&mut cpu, &mut c)[1], 2);

    let mut c = Controller::new();
    let mut cpu = Cpu::new();
    load(&mut c, &[0x6005, 0xE0A1, 0x6101, 0x6102]);
    c.set_key_pressed(Some(6));
    for _ in 0..3 {
        cpu.run_instruction(&mut c);
    }
    assert_eq!(registers(&mut cpu, &mut c)[1], 1);
}

#[test]
fn wait_for_key() {
    let mut c = Controller::new();
    let mut cpu = Cpu::new();
    load(&mut c, &[0xF30A, 0x6101]);
    cpu.run_instruction(&mut c);
    cpu.run_instruction(&mut c);
    // Still waiting: V1 untouched.
    assert_eq!(registers(&mut cpu, &mut c)[1], 0);

    let mut c = Controller::new();
    let mut cpu = Cpu::new();
    load(&mut c, &[0xF30A, 0x6101]);
    c.set_key_pressed(Some(0xB));
    cpu.run_instruction(&mut c);
    cpu.run_instruction(&mut c);
    let v = registers(&mut cpu, &mut c);
    assert_eq!(v[3], 0xB);
    assert_eq!(v[1], 1);
}

#[test]
fn delay_timer_round_trip() {
    let (mut cpu, mut c) = run(&[0x6078, 0xF015, 0xF107], 3);
    let v = registers(&mut cpu, &mut c);
    assert!(v[1] <= 0x78 && v[1] >= 0x70);
}

#[test]
fn random_is_masked() {
    let (mut cpu, mut c) = run(&[0xC000, 0xC10F], 2);
    let v = registers(&mut cpu, &mut c);
    assert_eq!(v[0], 0);
    assert!(v[1] <= 0x0F);
}

#[test]
fn execute_with_given_random_byte() {
    let mut c = Controller::new();
    let mut cpu = Cpu::new();
    cpu.execute(&mut c, 0xC33C, 0xF5, 0);
    assert_eq!(registers(&mut cpu, &mut c)[3], 0x34);
}

#[test]
fn execute_with_given_timer_value() {
    let mut c = Controller::new();
    let mut cpu = Cpu::new();
    cpu.execute(&mut c, 0xF407, 0, 0x2A);
    assert_eq!(registers(&mut cpu, &mut c)[4], 0x2A);
}

#[test]
fn chip8_runs_a_loaded_program() {
    let mut machine = Chip8::new();
    machine.load_rom(&vec![0x60, 0x05, 0x61, 0x03, 0xF0, 0x29, 0xD1, 0x15]);
    for _ in 0..4 {
        assert!(machine.can_execute_instruction());
        machine.execute_instruction();
    }
    let buffer = machine.get_display_buffer();
    // Glyph 5 drawn at (3, 3): first row 0xF0.
    assert_eq!(&buffer[3 * 64 + 3..3 * 64 + 8], &[1, 1, 1, 1, 0]);
    assert_eq!(&buffer[4 * 64 + 3..4 * 64 + 8], &[1, 0, 0, 0, 0]);
}

#[test]
fn chip8_starts_blank_and_takes_keys() {
    let mut machine = Chip8::new();
    assert!(machine.get_display_buffer().iter().all(|p| *p == 0));
    assert_eq!(machine.get_display_buffer().len(), 2048);
    machine.load_rom(&vec![0xE0, 0xA1, 0x00, 0x00, 0x60, 0x07]);
    machine.set_key_pressed(Some(0));
    assert!(machine.can_execute_instruction());
    machine.execute_instruction();
    // The key is held, so 0000 is skipped and 6007 runs next.
    assert!(machine.can_execute_instruction());
    machine.execute_instruction();
    assert!(!machine.can_execute_instruction());
}

#[test]
fn chip8_empty_memory_stops() {
    let machine = Chip8::new();
    // 0x0000 at the program start is not an instruction the CPU knows.
    assert!(!machine.can_execute_instruction());
}

#[test]
fn random_draws_map_to_rounded_bytes() {
    assert_eq!(random_byte_from_draw(0), 0);
    assert_eq!(random_byte_from_draw(1), 1);
    assert_eq!(random_byte_from_draw(2), 1);
    assert_eq!(random_byte_from_draw(3), 2);
    assert_eq!(random_byte_from_draw(508), 254);
    assert_eq!(random_byte_from_draw(509), 255);
    let mut counts = [0u32; 256];
    for k in 0..RANDOM_DRAWS {
        counts[random_byte_from_draw(k) as usize] += 1;
    }
    assert_eq!(counts[0], 1);
    assert_eq!(counts[255], 1);
    assert!(counts[1..255].iter().all(|c| *c == 2));
}
