use chip8::cpu::Effect;
use chip8::cpu::Fault;
use chip8::cpu::CPU;

#[test]
fn starts_in_initial_state() {
    let cpu = CPU::new();
    assert_eq!(cpu.pc(), 0x200);
    assert_eq!(cpu.sp(), 0);
    assert_eq!(cpu.index_reg(), 0);
    assert_eq!(cpu.delay_timer(), 0);
    assert_eq!(cpu.sound_timer(), 0);
    for r in 0u8..16 {
        assert_eq!(cpu.reg(r), 0);
    }
    assert_eq!(cpu.read_byte(0x000), Ok(0));
    assert_eq!(cpu.read_byte(0xFFF), Ok(0));
}

#[test]
fn nop_advances() {
    let mut cpu = CPU::new();
    assert_eq!(cpu.decode_execute(0x0000), Ok(Effect::Nothing));
    assert_eq!(cpu.pc(), 0x202);
}

#[test]
fn clear_display_effect() {
    let mut cpu = CPU::new();
    assert_eq!(cpu.decode_execute(0x00E0), Ok(Effect::ClearDisplay));
    assert_eq!(cpu.pc(), 0x202);
}

#[test]
fn jump_sets_pc_exactly() {
    let mut cpu = CPU::new();
    assert_eq!(cpu.decode_execute(0x1ABC), Ok(Effect::Nothing));
    // No default advance on top of the jump target.
    assert_eq!(cpu.pc(), 0xABC);
}

#[test]
fn indexed_jump_adds_v0() {
    let mut cpu = CPU::new();
    assert_eq!(cpu.decode_execute(0x6005), Ok(Effect::Nothing));
    assert_eq!(cpu.decode_execute(0xB300), Ok(Effect::Nothing));
    assert_eq!(cpu.pc(), 0x305);
}

#[test]
fn call_and_return() {
    let mut cpu = CPU::new();
    assert_eq!(cpu.pc(), 0x200);
    assert_eq!(cpu.decode_execute(0x2ABC), Ok(Effect::Nothing));
    assert_eq!(cpu.pc(), 0xABC);
    assert_eq!(cpu.sp(), 1);
    assert_eq!(cpu.decode_execute(0x00EE), Ok(Effect::Nothing));
    assert_eq!(cpu.pc(), 0x200);
    assert_eq!(cpu.sp(), 0);
}

#[test]
fn return_on_empty_stack_faults() {
    let mut cpu = CPU::new();
    assert_eq!(cpu.decode_execute(0x00EE), Err(Fault::StackUnderflow));
    // The fault aborts the cycle: nothing moved.
    assert_eq!(cpu.pc(), 0x200);
    assert_eq!(cpu.sp(), 0);
}

#[test]
fn seventeenth_call_faults() {
    let mut cpu = CPU::new();
    for _ in 0..16 {
        assert_eq!(cpu.decode_execute(0x2300), Ok(Effect::Nothing));
    }
    assert_eq!(cpu.sp(), 16);
    assert_eq!(cpu.decode_execute(0x2300), Err(Fault::StackOverflow));
    assert_eq!(cpu.sp(), 16);
}

#[test]
fn unknown_instructions_fault() {
    let mut cpu = CPU::new();
    assert_eq!(cpu.decode_execute(0x0123), Err(Fault::UnknownInstruction(0x0123)));
    assert_eq!(cpu.decode_execute(0x5011), Err(Fault::UnknownInstruction(0x5011)));
    assert_eq!(cpu.decode_execute(0x8018), Err(Fault::UnknownInstruction(0x8018)));
    assert_eq!(cpu.decode_execute(0x9015), Err(Fault::UnknownInstruction(0x9015)));
    assert_eq!(cpu.decode_execute(0xE000), Err(Fault::UnknownInstruction(0xE000)));
    assert_eq!(cpu.decode_execute(0xF0FF), Err(Fault::UnknownInstruction(0xF0FF)));
    assert_eq!(cpu.pc(), 0x200);
}

#[test]
fn set_index_register() {
    let mut cpu = CPU::new();
    assert_eq!(cpu.decode_execute(0xA123), Ok(Effect::Nothing));
    assert_eq!(cpu.index_reg(), 0x123);
}

#[test]
fn add_register_to_index() {
    let mut cpu = CPU::new();
    assert_eq!(cpu.decode_execute(0xAFFF), Ok(Effect::Nothing));
    assert_eq!(cpu.decode_execute(0x6010), Ok(Effect::Nothing));
    assert_eq!(cpu.decode_execute(0xF01E), Ok(Effect::Nothing));
    assert_eq!(cpu.index_reg(), 0x100F);
}

#[test]
fn font_sprite_address() {
    let mut cpu = CPU::new();
    assert_eq!(cpu.decode_execute(0x600A), Ok(Effect::Nothing));
    assert_eq!(cpu.decode_execute(0xF029), Ok(Effect::Nothing));
    // Glyphs are five bytes each, starting at 0x50.
    assert_eq!(cpu.index_reg(), 0x50 + 5 * 0xA);
}

#[test]
fn bcd_past_end_of_memory_faults() {
    let mut cpu = CPU::new();
    assert_eq!(cpu.decode_execute(0xAFFE), Ok(Effect::Nothing));
    assert_eq!(cpu.decode_execute(0xF033), Err(Fault::OutOfRange(0xFFE)));
}

#[test]
fn store_registers_past_end_of_memory_faults() {
    let mut cpu = CPU::new();
    assert_eq!(cpu.decode_execute(0xAFFF), Ok(Effect::Nothing));
    assert_eq!(cpu.decode_execute(0xF155), Err(Fault::OutOfRange(0xFFF)));
    assert_eq!(cpu.decode_execute(0xF165), Err(Fault::OutOfRange(0xFFF)));
    // A single byte at the last address is still in range.
    assert_eq!(cpu.decode_execute(0xF055), Ok(Effect::Nothing));
}

#[test]
fn draw_reports_sprite_request_and_collision() {
    let mut cpu = CPU::new();
    assert_eq!(cpu.decode_execute(0x6107), Ok(Effect::Nothing));
    assert_eq!(cpu.decode_execute(0x6203), Ok(Effect::Nothing));
    assert_eq!(cpu.decode_execute(0xA300), Ok(Effect::Nothing));
    let pc = cpu.pc();
    assert_eq!(
        cpu.decode_execute(0xD125),
        Ok(Effect::Draw { x: 7, y: 3, addr: 0x300, n: 5 })
    );
    assert_eq!(cpu.pc(), pc + 2);
    cpu.report_collision(true);
    assert_eq!(cpu.reg(0xF), 1);
    cpu.report_collision(false);
    assert_eq!(cpu.reg(0xF), 0);
}

#[test]
fn skip_on_key_state() {
    let mut cpu = CPU::new();
    assert_eq!(cpu.decode_execute(0x6005), Ok(Effect::Nothing));
    cpu.set_key(5, true);

    // Ex9E: key down, skip taken.
    let pc = cpu.pc();
    assert_eq!(cpu.decode_execute(0xE09E), Ok(Effect::Nothing));
    assert_eq!(cpu.pc(), pc + 4);

    // ExA1: key down, skip not taken.
    let pc = cpu.pc();
    assert_eq!(cpu.decode_execute(0xE0A1), Ok(Effect::Nothing));
    assert_eq!(cpu.pc(), pc + 2);

    cpu.set_key(5, false);
    let pc = cpu.pc();
    assert_eq!(cpu.decode_execute(0xE09E), Ok(Effect::Nothing));
    assert_eq!(cpu.pc(), pc + 2);
    let pc = cpu.pc();
    assert_eq!(cpu.decode_execute(0xE0A1), Ok(Effect::Nothing));
    assert_eq!(cpu.pc(), pc + 4);
}

#[test]
fn wait_for_key_blocks_then_reads_lowest() {
    let mut cpu = CPU::new();
    let pc = cpu.pc();
    // No key down: the cycle does not advance.
    assert_eq!(cpu.decode_execute(0xF30A), Ok(Effect::WaitingKey));
    assert_eq!(cpu.pc(), pc);
    // Two keys down: the lowest-numbered one is taken.
    cpu.set_key(7, true);
    cpu.set_key(3, true);
    assert_eq!(cpu.decode_execute(0xF30A), Ok(Effect::Nothing));
    assert_eq!(cpu.reg(3), 3);
    assert_eq!(cpu.pc(), pc + 2);
}

#[test]
fn timers_set_read_and_tick() {
    let mut cpu = CPU::new();
    assert_eq!(cpu.decode_execute(0x6002), Ok(Effect::Nothing));
    assert_eq!(cpu.decode_execute(0xF015), Ok(Effect::Nothing));
    assert_eq!(cpu.decode_execute(0xF018), Ok(Effect::Nothing));
    assert_eq!(cpu.delay_timer(), 2);
    assert_eq!(cpu.sound_timer(), 2);

    // Fx07 reads the delay timer back into a register.
    assert_eq!(cpu.decode_execute(0xF107), Ok(Effect::Nothing));
    assert_eq!(cpu.reg(1), 2);

    cpu.tick_timers();
    assert_eq!(cpu.delay_timer(), 1);
    assert_eq!(cpu.sound_timer(), 1);
    cpu.tick_timers();
    cpu.tick_timers();
    // Timers stop at zero instead of wrapping.
    assert_eq!(cpu.delay_timer(), 0);
    assert_eq!(cpu.sound_timer(), 0);
}

#[test]
fn fetch_assembles_big_endian_word() {
    let mut cpu = CPU::new();
    assert_eq!(cpu.write_byte(0x200, 0x12), Ok(()));
    assert_eq!(cpu.write_byte(0x201, 0x34), Ok(()));
    assert_eq!(cpu.fetch(), Ok(0x1234));
    // Fetch itself does not move the program counter.
    assert_eq!(cpu.pc(), 0x200);
}

#[test]
fn fetch_at_end_of_memory_faults() {
    let mut cpu = CPU::new();
    assert_eq!(cpu.decode_execute(0x1FFF), Ok(Effect::Nothing));
    assert_eq!(cpu.fetch(), Err(Fault::OutOfRange(0xFFF)));
}

#[test]
fn memory_access_is_bounds_checked() {
    let mut cpu = CPU::new();
    assert_eq!(cpu.write_byte(0xFFF, 0x99), Ok(()));
    assert_eq!(cpu.read_byte(0xFFF), Ok(0x99));
    assert_eq!(cpu.write_byte(0x1000, 0x99), Err(Fault::OutOfRange(0x1000)));
    assert_eq!(cpu.read_byte(0x1000), Err(Fault::OutOfRange(0x1000)));
}

#[test]
fn fetch_decode_cycle_runs_a_program() {
    // V0 = 0x99, V1 = 0x01, V0 += V1 with carry, then jump in place.
    let program: [u8; 10] = [0x60, 0x99, 0x61, 0x01, 0x80, 0x14, 0xA3, 0x00, 0x12, 0x08];
    let mut cpu = CPU::new();
    let mut addr: u16 = 0x200;
    for &byte in program.iter() {
        assert_eq!(cpu.write_byte(addr, byte), Ok(()));
        addr += 1;
    }
    for _ in 0..5 {
        let word = cpu.fetch().expect("program stays inside memory");
        assert_eq!(cpu.decode_execute(word), Ok(Effect::Nothing));
    }
    assert_eq!(cpu.reg(0), 0x9A);
    assert_eq!(cpu.reg(0xF), 0);
    assert_eq!(cpu.index_reg(), 0x300);
    // The closing jump left the program counter on itself.
    assert_eq!(cpu.pc(), 0x208);
}
